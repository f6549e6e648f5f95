//! What a scan is told: where the site is, and how far to go.

use crate::date::{yesterday, CalendarDate};
use vstd::prelude::*;
use vstd::string::StringExecFns;

verus! {

/// The settings of a scan.
#[derive(Clone, Debug, PartialEq, Eq)]
pub struct Config {
    /// The address against which the links of listing entries are resolved.
    pub site_url: String,
    /// The address of the first listing page. Page `n` of the listing is at
    /// this address followed by `/page/n`.
    pub listing_url: String,
    /// The oldest day of last update that is still reported; where it is
    /// `None`, the day before the current local date.
    pub cutoff_date: Option<CalendarDate>,
    /// The largest number of listing pages to scan, if there is a limit.
    pub max_pages: Option<u32>,
}

/// What a `Config` holds.
#[verifier::ext_equal]
pub struct ConfigView {
    pub site_url: Seq<char>,
    pub listing_url: Seq<char>,
    pub cutoff_date: Option<(int, int, int)>,
    pub max_pages: Option<u32>,
}

impl View for Config {
    type V = ConfigView;

    open spec fn view(&self) -> ConfigView {
        ConfigView {
            site_url: self.site_url@,
            listing_url: self.listing_url@,
            cutoff_date: match self.cutoff_date {
                Some(day) => Some(day.ymd()),
                None => None,
            },
            max_pages: self.max_pages,
        }
    }
}

/// The settings for the HITCON ZeroDay site, with no override.
pub open spec fn standard_settings() -> ConfigView {
    ConfigView {
        site_url: "https://zeroday.hitcon.org/"@,
        listing_url: "https://zeroday.hitcon.org/vulnerability/all"@,
        cutoff_date: None,
        max_pages: None,
    }
}

impl Config {
    /// The settings for the HITCON ZeroDay site: every page, and yesterday
    /// as the cutoff.
    pub fn standard() -> (r: Config)
        ensures
            r@ == standard_settings(),
    {
        Config {
            site_url: String::from_str("https://zeroday.hitcon.org/"),
            listing_url: String::from_str("https://zeroday.hitcon.org/vulnerability/all"),
            cutoff_date: None,
            max_pages: None,
        }
    }

    /// The cutoff of a scan with these settings: the day that is set, else
    /// yesterday by the local clock.
    pub fn effective_cutoff(&self) -> (r: Option<CalendarDate>)
        ensures
            r is Some,
            self.cutoff_date is Some ==> r == self.cutoff_date,
            self.cutoff_date is None ==> r->0.wf(),
    {
        match self.cutoff_date {
            Some(day) => Some(day),
            None => yesterday(),
        }
    }
}

impl Default for Config {
    fn default() -> (r: Config)
        ensures
            r@ == standard_settings(),
    {
        Config::standard()
    }
}

} // verus!
