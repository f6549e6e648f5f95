use zeroday_scan::config::Config;
use zeroday_scan::date::CalendarDate;
use zeroday_scan::error::ScanError;
use zeroday_scan::replay::{find_page, replay, Outcome, SavedPage};
use zeroday_scan::scan::{
    entry_url, listing_links, page_count, page_url, wants_page, Next, Scanner, Step,
};

const SITE: &str = "https://example.org/";
const LISTING: &str = "https://example.org/vulnerability/all";

fn config() -> Config {
    Config {
        site_url: String::from(SITE),
        listing_url: String::from(LISTING),
        cutoff_date: None,
        max_pages: None,
    }
}

fn date(y: i32, m: u32, d: u32) -> CalendarDate {
    CalendarDate::new(y, m, d).unwrap()
}

fn listing(last_page: &str, links: &[&str]) -> String {
    let entries: String = links
        .iter()
        .map(|l| format!("<li class=\"strip\"><div class=\"title\"><a href=\"{}\">entry</a></div></li>", l))
        .collect();
    format!(
        "<html><body><ul>{}</ul><span class=\"last-page\">{}</span></body></html>",
        entries, last_page
    )
}

fn report(title: &str, day: &str) -> String {
    format!(
        "<html><body><ul><li class=\"title\"><span class=\"value\">{}</span></li></ul>\
         <div class=\"status-descr\">Last Update : {}</div><div class=\"status-label\">Open</div>\
         <div class=\"info\"><ul><li>\u{98a8}\u{96aa}\u{ff1a}High</li><li>\u{985e}\u{578b}\u{ff1a}XSS</li></ul></div>\
         </body></html>",
        title, day
    )
}

fn saved(url: &str, body: String) -> SavedPage {
    SavedPage { url: String::from(url), body }
}

fn page_address(n: u32) -> String {
    format!("{}/page/{}", LISTING, n)
}

fn titles(outcome: &Outcome) -> Vec<String> {
    outcome.reports.iter().map(|r| r.title.clone()).collect()
}

#[test]
fn scan_stops_at_the_first_report_older_than_the_cutoff() {
    let pages = vec![
        saved(LISTING, listing("3", &[])),
        saved(&page_address(1), listing("3", &["/r/1", "/r/2", "/r/3", "/r/4"])),
        saved("https://example.org/r/1", report("one", "2024/06/10")),
        saved("https://example.org/r/2", report("two", "2024/06/09")),
        saved("https://example.org/r/3", report("three", "2024/06/01")),
        saved("https://example.org/r/4", report("four", "2024/06/12")),
        saved(&page_address(2), listing("3", &["/r/4"])),
    ];
    let outcome = replay(config(), date(2024, 6, 9), &pages);
    assert_eq!(outcome.error, None);
    assert_eq!(titles(&outcome), vec!["one", "two"]);
    assert_eq!(
        outcome.reports.iter().map(|r| r.last_update).collect::<Vec<_>>(),
        vec![date(2024, 6, 10), date(2024, 6, 9)]
    );
    assert_eq!(
        outcome.requests,
        vec![
            String::from(LISTING),
            page_address(1),
            String::from("https://example.org/r/1"),
            String::from("https://example.org/r/2"),
            String::from("https://example.org/r/3"),
        ]
    );
}

fn fetch(step: Step, expected_request: &str) -> Scanner {
    match step.next {
        Next::Fetch { scanner, request } => {
            assert_eq!(request, expected_request);
            scanner
        }
        other => panic!("unexpected end {:?}", other),
    }
}

#[test]
fn listing_scanner_returns_false_after_the_third_entry() {
    let (scanner, first) = Scanner::new(config(), date(2024, 6, 9));
    assert_eq!(first, LISTING);
    let step = scanner.advance(Some(&listing("3", &[])));
    assert_eq!(step.report, None);
    let scanner = fetch(step, &page_address(1));
    let step = scanner.advance(Some(&listing("3", &["/r/1", "/r/2", "/r/3", "/r/4"])));
    assert_eq!(step.report, None);
    let scanner = fetch(step, "https://example.org/r/1");
    let step = scanner.advance(Some(&report("one", "2024/06/10")));
    let shown = step.report.clone().unwrap();
    assert_eq!(shown.title, "one");
    assert_eq!(shown.detail_url, "https://example.org/r/1");
    let scanner = fetch(step, "https://example.org/r/2");
    let step = scanner.advance(Some(&report("two", "2024/06/09")));
    assert_eq!(step.report.clone().unwrap().title, "two");
    let scanner = fetch(step, "https://example.org/r/3");
    let step = scanner.advance(Some(&report("three", "2024/06/01")));
    assert_eq!(step, Step { report: None, next: Next::Finished });
}

#[test]
fn last_page_seven_visits_pages_one_to_six() {
    assert_eq!(page_count(&listing("7", &[])), Ok(7));
    let mut pages = vec![saved(LISTING, listing("7", &[]))];
    for n in 1..=7 {
        pages.push(saved(&page_address(n), listing("7", &[])));
    }
    let outcome = replay(config(), date(2024, 6, 9), &pages);
    assert_eq!(outcome.error, None);
    assert!(outcome.reports.is_empty());
    let mut expected = vec![String::from(LISTING)];
    for n in 1..=6 {
        expected.push(page_address(n));
    }
    assert_eq!(outcome.requests, expected);
    for n in 1..=6 {
        assert!(wants_page(&config(), 7, n));
    }
    assert!(!wants_page(&config(), 7, 0));
    assert!(!wants_page(&config(), 7, 7));
    assert!(!wants_page(&config(), 7, 8));
}

#[test]
fn last_page_one_or_less_visits_no_page() {
    for count in ["1", "0", "-3"] {
        let pages = vec![saved(LISTING, listing(count, &["/r/1"]))];
        let outcome = replay(config(), date(2024, 6, 9), &pages);
        assert_eq!(outcome.error, None);
        assert!(outcome.reports.is_empty());
        assert_eq!(outcome.requests, vec![String::from(LISTING)]);
    }
}

#[test]
fn page_count_is_trimmed_and_must_be_a_number() {
    assert_eq!(page_count(&listing(" \n 12 \t", &[])), Ok(12));
    assert_eq!(page_count(&listing("+4", &[])), Ok(4));
    assert_eq!(page_count(&listing("seven", &[])), Err(ScanError::PageCount));
    assert_eq!(page_count(&listing("", &[])), Err(ScanError::PageCount));
    assert_eq!(page_count(&listing("1 2", &[])), Err(ScanError::PageCount));
    assert_eq!(page_count("<html><body></body></html>"), Err(ScanError::PageCount));
    assert_eq!(page_count("<div class=\"last-page\">7</div>"), Err(ScanError::PageCount));
    assert_eq!(
        page_count("<span class=\"last-page\">1</span><span class=\"x last-page\">2</span>"),
        Ok(12)
    );
}

#[test]
fn bad_page_count_ends_the_scan() {
    let pages = vec![saved(LISTING, listing("many", &[]))];
    let outcome = replay(config(), date(2024, 6, 9), &pages);
    assert_eq!(outcome.error, Some(ScanError::PageCount));
    assert_eq!(outcome.requests, vec![String::from(LISTING)]);
}

#[test]
fn scan_goes_on_to_the_next_page_when_all_entries_meet_the_cutoff() {
    let pages = vec![
        saved(LISTING, listing("3", &[])),
        saved(&page_address(1), listing("3", &["/r/1"])),
        saved("https://example.org/r/1", report("one", "2024/06/10")),
        saved(&page_address(2), listing("3", &["/r/2"])),
        saved("https://example.org/r/2", report("two", "2024/06/09")),
        saved(&page_address(3), listing("3", &["/r/3"])),
    ];
    let outcome = replay(config(), date(2024, 6, 9), &pages);
    assert_eq!(outcome.error, None);
    assert_eq!(titles(&outcome), vec!["one", "two"]);
    assert_eq!(outcome.requests.len(), 5);
    assert_eq!(outcome.requests[3], page_address(2));
}

#[test]
fn final_step_reports_the_last_entry() {
    let (scanner, _) = Scanner::new(config(), date(2024, 6, 9));
    let scanner = fetch(scanner.advance(Some(&listing("2", &[]))), &page_address(1));
    assert_eq!(scanner.last_page(), Some(2));
    assert_eq!(scanner.cutoff(), date(2024, 6, 9));
    let scanner = fetch(scanner.advance(Some(&listing("2", &["/r/1"]))), "https://example.org/r/1");
    let step = scanner.advance(Some(&report("one", "2024/06/09")));
    assert_eq!(step.report.unwrap().title, "one");
    assert_eq!(step.next, Next::Finished);
}

#[test]
fn report_is_kept_when_the_next_entry_fails() {
    let (scanner, _) = Scanner::new(config(), date(2024, 6, 9));
    let scanner = fetch(scanner.advance(Some(&listing("2", &[]))), &page_address(1));
    let body = "<ul><li class=\"strip\"><div class=\"title\"><a href=\"/r/1\">a</a></div></li>\
                <li class=\"strip\">no link</li></ul>";
    let scanner = fetch(scanner.advance(Some(body)), "https://example.org/r/1");
    let step = scanner.advance(Some(&report("one", "2024/06/09")));
    assert_eq!(step.report.unwrap().title, "one");
    assert_eq!(step.next, Next::Failed { error: ScanError::EntryLink });
}

#[test]
fn failed_fetch_is_a_transport_error() {
    let (scanner, _) = Scanner::new(config(), date(2024, 6, 9));
    assert_eq!(scanner.last_page(), None);
    assert_eq!(
        scanner.advance(None),
        Step { report: None, next: Next::Failed { error: ScanError::Transport } }
    );
    let pages = vec![
        saved(LISTING, listing("3", &[])),
        saved(&page_address(1), listing("3", &["/r/1", "/r/2"])),
        saved("https://example.org/r/1", report("one", "2024/06/10")),
    ];
    let outcome = replay(config(), date(2024, 6, 9), &pages);
    assert_eq!(outcome.error, Some(ScanError::Transport));
    assert_eq!(titles(&outcome), vec!["one"]);
    assert_eq!(outcome.requests.last().unwrap(), "https://example.org/r/2");
}

#[test]
fn entry_without_link_is_fatal() {
    let body = String::from(
        "<ul><li class=\"strip\"><div class=\"title\"><a href=\"/r/1\">a</a></div></li>\
         <li class=\"strip\"><div class=\"title\">no link</div></li>\
         <li class=\"strip\"><div class=\"title\"><a>no href</a></div></li>\
         <li class=\"strip\"><a href=\"/outside\">not in title</a></li></ul>",
    );
    assert_eq!(listing_links(&body), vec![Some(String::from("/r/1")), None, None, None]);
    let pages = vec![
        saved(LISTING, listing("2", &[])),
        saved(&page_address(1), body),
        saved("https://example.org/r/1", report("one", "2024/06/10")),
    ];
    let outcome = replay(config(), date(2024, 6, 9), &pages);
    assert_eq!(outcome.error, Some(ScanError::EntryLink));
    assert_eq!(titles(&outcome), vec!["one"]);
}

#[test]
fn listing_links_takes_entries_in_document_order() {
    let body = String::from(
        "<ul><li class=\"strip\"><div class=\"title\"><a href=\"b\">x</a><a href=\"c\">y</a></div></li>\
         <li class=\"strip extra\"><div class=\"title\"><a href=\"skipped\">z</a></div></li>\
         <li class=\"strip\"><h3 class=\"big title\"><span><a href=\"a\">w</a></span></h3></li></ul>",
    );
    assert_eq!(listing_links(&body), vec![Some(String::from("b")), Some(String::from("a"))]);
    assert_eq!(listing_links("<p>nothing</p>"), Vec::<Option<String>>::new());
}

#[test]
fn entry_links_are_resolved_against_the_site() {
    let c = config();
    assert_eq!(entry_url(&c, "/vulnerability/ZD-1"), Ok(String::from("https://example.org/vulnerability/ZD-1")));
    assert_eq!(entry_url(&c, "vulnerability/ZD-1"), Ok(String::from("https://example.org/vulnerability/ZD-1")));
    assert_eq!(entry_url(&c, "https://other.example/x"), Ok(String::from("https://other.example/x")));
    assert_eq!(entry_url(&c, "../a/./b"), Ok(String::from("https://example.org/a/b")));
}

#[test]
fn unresolvable_entry_link_is_fatal() {
    let c = config();
    assert_eq!(entry_url(&c, "https://[bad"), Err(ScanError::EntryUrl));
    let no_base = Config { site_url: String::from("not an address"), ..config() };
    assert_eq!(entry_url(&no_base, "/r/1"), Err(ScanError::EntryUrl));
    let pages = vec![
        saved(LISTING, listing("2", &[])),
        saved(&page_address(1), listing("2", &["https://[bad"])),
    ];
    let outcome = replay(config(), date(2024, 6, 9), &pages);
    assert_eq!(outcome.error, Some(ScanError::EntryUrl));
}

#[test]
fn page_addresses_are_formed_from_the_listing_address() {
    assert_eq!(page_url(&config(), 1), Ok(page_address(1)));
    assert_eq!(page_url(&config(), 25), Ok(String::from("https://example.org/vulnerability/all/page/25")));
    assert_eq!(
        page_url(&Config::standard(), 3),
        Ok(String::from("https://zeroday.hitcon.org/vulnerability/all/page/3"))
    );
    let bad = Config { listing_url: String::from("nowhere"), ..config() };
    assert_eq!(page_url(&bad, 1), Err(ScanError::PageUrl));
}

#[test]
fn unformable_page_address_is_fatal() {
    let bad = Config { listing_url: String::from("nowhere"), ..config() };
    let pages = vec![saved("nowhere", listing("3", &[]))];
    let outcome = replay(bad, date(2024, 6, 9), &pages);
    assert_eq!(outcome.error, Some(ScanError::PageUrl));
    assert_eq!(outcome.requests, vec![String::from("nowhere")]);
}

#[test]
fn report_errors_end_the_scan() {
    let pages = vec![
        saved(LISTING, listing("2", &[])),
        saved(&page_address(1), listing("2", &["/r/1", "/r/2", "/r/3"])),
        saved("https://example.org/r/1", report("one", "2024/06/10")),
        saved("https://example.org/r/2", report("two", "June")),
        saved("https://example.org/r/3", report("three", "2024/06/10")),
    ];
    let outcome = replay(config(), date(2024, 6, 9), &pages);
    assert_eq!(outcome.error, Some(ScanError::DateFormat));
    assert_eq!(titles(&outcome), vec!["one"]);
    assert_eq!(outcome.requests.len(), 4);
}

#[test]
fn max_pages_limits_the_pages() {
    let mut pages = vec![saved(LISTING, listing("7", &[]))];
    for n in 1..=7 {
        pages.push(saved(&page_address(n), listing("7", &[])));
    }
    let limited = Config { max_pages: Some(2), ..config() };
    let outcome = replay(limited, date(2024, 6, 9), &pages);
    assert_eq!(outcome.error, None);
    assert_eq!(outcome.requests, vec![String::from(LISTING), page_address(1), page_address(2)]);
    let none = Config { max_pages: Some(0), ..config() };
    assert_eq!(replay(none, date(2024, 6, 9), &pages).requests, vec![String::from(LISTING)]);
    assert!(wants_page(&Config { max_pages: Some(2), ..config() }, 7, 2));
    assert!(!wants_page(&Config { max_pages: Some(2), ..config() }, 7, 3));
}

#[test]
fn rerun_gives_the_same_reports() {
    let pages = vec![
        saved(LISTING, listing("3", &[])),
        saved(&page_address(1), listing("3", &["/r/1", "/r/2"])),
        saved("https://example.org/r/1", report("one", "2024/06/10")),
        saved("https://example.org/r/2", report("two", "2024/06/09")),
        saved(&page_address(2), listing("3", &["/r/3"])),
        saved("https://example.org/r/3", report("three", "2024/06/01")),
    ];
    let first = replay(config(), date(2024, 6, 9), &pages);
    let second = replay(config(), date(2024, 6, 9), &pages);
    assert_eq!(first, second);
    assert_eq!(titles(&first), vec!["one", "two"]);
    let mut shuffled = pages.clone();
    shuffled.reverse();
    shuffled.push(saved("https://example.org/unused", String::new()));
    assert_eq!(replay(config(), date(2024, 6, 9), &shuffled), first);
}

#[test]
fn find_page_takes_the_first_with_the_address() {
    let pages = vec![
        saved("a", String::from("1")),
        saved("b", String::from("2")),
        saved("a", String::from("3")),
    ];
    assert_eq!(find_page(&pages, &String::from("a")), Some("1"));
    assert_eq!(find_page(&pages, &String::from("b")), Some("2"));
    assert_eq!(find_page(&pages, &String::from("c")), None);
}

#[test]
fn standard_settings_name_the_site() {
    let c = Config::standard();
    assert_eq!(c.site_url, "https://zeroday.hitcon.org/");
    assert_eq!(c.listing_url, "https://zeroday.hitcon.org/vulnerability/all");
    assert_eq!(c.cutoff_date, None);
    assert_eq!(c.max_pages, None);
    assert_eq!(Config::default(), c);
    let (_, first) = Scanner::new(c, date(2024, 6, 9));
    assert_eq!(first, "https://zeroday.hitcon.org/vulnerability/all");
}

#[test]
fn effective_cutoff_takes_the_override() {
    let set = Config { cutoff_date: Some(date(2024, 6, 9)), ..config() };
    assert_eq!(set.effective_cutoff(), Some(date(2024, 6, 9)));
    assert!(config().effective_cutoff().is_some());
}
