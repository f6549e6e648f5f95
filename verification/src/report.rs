//! Reading the fields of one report from the markup of its page.

use crate::date::{
    date_in, is_plain_ymd, parse_date, plain_ymd, writes_calendar_date, CalendarDate,
};
use crate::error::ScanError;
use crate::markup::{
    class_texts, inner_class_texts, inner_tag_texts, select_class_texts,
    select_inner_class_texts, select_inner_tag_texts,
};
use crate::text::{
    begins_with, concat_all, cut_second, ends_at_first, lacks, lemma_second_segment_of_joined,
    occurs_at, second_segment, trim, trimmed, views,
};
use vstd::prelude::*;

verus! {

/// The separator between the label and the date of a status description.
pub open spec fn date_separator() -> Seq<char> {
    " : "@
}

/// The full-width colon between a label and its value.
pub open spec fn label_colon() -> Seq<char> {
    "\u{ff1a}"@
}

/// The label of the line that gives the risk level.
pub open spec fn risk_label() -> Seq<char> {
    "\u{98a8}\u{96aa}"@
}

/// The label of the line that gives the category.
pub open spec fn category_label() -> Seq<char> {
    "\u{985e}\u{578b}"@
}

/// The five fields of a report, as the page writes them.
#[derive(Clone, Debug, PartialEq, Eq)]
pub struct ReportText {
    pub title: String,
    pub last_update: String,
    pub status: String,
    pub risk: String,
    pub category: String,
}

/// What a `ReportText` holds.
#[verifier::ext_equal]
pub struct ReportTextView {
    pub title: Seq<char>,
    pub last_update: Seq<char>,
    pub status: Seq<char>,
    pub risk: Seq<char>,
    pub category: Seq<char>,
}

impl View for ReportText {
    type V = ReportTextView;

    open spec fn view(&self) -> ReportTextView {
        ReportTextView {
            title: self.title@,
            last_update: self.last_update@,
            status: self.status@,
            risk: self.risk@,
            category: self.category@,
        }
    }
}

/// One report: its fields, the day of its last update, and its address.
#[derive(Clone, Debug, PartialEq, Eq)]
pub struct VulnerabilityReport {
    pub title: String,
    pub last_update: CalendarDate,
    pub last_update_text: String,
    pub status: String,
    pub risk_level: String,
    pub category: String,
    pub detail_url: String,
}

/// What a `VulnerabilityReport` holds.
#[verifier::ext_equal]
pub struct VulnerabilityReportView {
    pub title: Seq<char>,
    pub last_update: (int, int, int),
    pub last_update_text: Seq<char>,
    pub status: Seq<char>,
    pub risk_level: Seq<char>,
    pub category: Seq<char>,
    pub detail_url: Seq<char>,
}

impl View for VulnerabilityReport {
    type V = VulnerabilityReportView;

    open spec fn view(&self) -> VulnerabilityReportView {
        VulnerabilityReportView {
            title: self.title@,
            last_update: self.last_update.ymd(),
            last_update_text: self.last_update_text@,
            status: self.status@,
            risk_level: self.risk_level@,
            category: self.category@,
            detail_url: self.detail_url@,
        }
    }
}

/// A line that begins with one of the two labels has a colon, and so a value.
pub open spec fn line_complete(line: Seq<char>) -> bool {
    occurs_at(line, risk_label(), 0) || occurs_at(line, category_label(), 0) ==> second_segment(
        line,
        label_colon(),
    ) is Some
}

/// Every labelled line of `lines` has a value.
pub open spec fn lines_complete(lines: Seq<Seq<char>>) -> bool {
    forall|i: int| 0 <= i < lines.len() ==> line_complete(#[trigger] lines[i])
}

/// The value after the colon in `line`, or the empty text if it has no colon.
pub open spec fn value_of(line: Seq<char>) -> Seq<char> {
    match second_segment(line, label_colon()) {
        Some(value) => value,
        None => Seq::empty(),
    }
}

/// The value of the last line of `lines` that begins with `label`; the
/// empty text if no line does.
pub open spec fn labelled_value(lines: Seq<Seq<char>>, label: Seq<char>) -> Seq<char>
    decreases lines.len(),
{
    if lines.len() == 0 {
        Seq::empty()
    } else if occurs_at(lines.last(), label, 0) {
        value_of(lines.last())
    } else {
        labelled_value(lines.drop_last(), label)
    }
}

/// The fields that the texts of a report page give: the texts of the title
/// element, of the status description, of the status label, and of the lines
/// of the info block.
pub open spec fn fields_of(
    title_texts: Seq<Seq<char>>,
    descr_texts: Seq<Seq<char>>,
    status_texts: Seq<Seq<char>>,
    info_lines: Seq<Seq<char>>,
) -> Result<ReportTextView, ScanError> {
    match second_segment(descr_texts.flatten(), date_separator()) {
        None => Err(ScanError::DateSeparator),
        Some(date_text) => if !lines_complete(info_lines) {
            Err(ScanError::LabelValue)
        } else {
            Ok(
                ReportTextView {
                    title: trimmed(title_texts.flatten()),
                    last_update: date_text,
                    status: status_texts.flatten(),
                    risk: labelled_value(info_lines, risk_label()),
                    category: labelled_value(info_lines, category_label()),
                },
            )
        },
    }
}

/// The fields that the page `markup` gives.
pub open spec fn fields_in(markup: Seq<char>) -> Result<ReportTextView, ScanError> {
    fields_of(
        inner_class_texts(markup, "li"@, "title"@, "span"@, "value"@),
        class_texts(markup, "div"@, "status-descr"@),
        class_texts(markup, "div"@, "status-label"@),
        inner_tag_texts(markup, "div"@, "info"@, "li"@),
    )
}

/// The report that fields and an address make: the fields as they are, and
/// the day that the text of the last update names.
pub open spec fn report_of(fields: ReportTextView, detail_url: Seq<char>) -> Result<
    VulnerabilityReportView,
    ScanError,
> {
    match date_in(fields.last_update) {
        None => Err(ScanError::DateFormat),
        Some(day) => Ok(
            VulnerabilityReportView {
                title: fields.title,
                last_update: day,
                last_update_text: fields.last_update,
                status: fields.status,
                risk_level: fields.risk,
                category: fields.category,
                detail_url,
            },
        ),
    }
}

/// The report that the page `markup`, found at `detail_url`, gives.
pub open spec fn report_in(markup: Seq<char>, detail_url: Seq<char>) -> Result<
    VulnerabilityReportView,
    ScanError,
> {
    match fields_in(markup) {
        Err(e) => Err(e),
        Ok(fields) => report_of(fields, detail_url),
    }
}

/// No line begins with both labels.
pub proof fn lemma_labels_distinct(line: Seq<char>)
    ensures
        !(occurs_at(line, risk_label(), 0) && occurs_at(line, category_label(), 0)),
{
    reveal_strlit("\u{98a8}\u{96aa}");
    reveal_strlit("\u{985e}\u{578b}");
    if occurs_at(line, risk_label(), 0) && occurs_at(line, category_label(), 0) {
        assert(line.subrange(0, 2)[0] == risk_label()[0]);
        assert(line.subrange(0, 2)[0] == category_label()[0]);
    }
}

/// A line made of a label, the colon and a value without colon has that
/// value, character for character, white space included.
pub proof fn lemma_value_of_labelled_line(label: Seq<char>, value: Seq<char>)
    requires
        label == risk_label() || label == category_label(),
        lacks(value, label_colon()),
    ensures
        occurs_at(label + label_colon() + value, label, 0),
        value_of(label + label_colon() + value) == value,
{
    reveal_strlit("\u{98a8}\u{96aa}");
    reveal_strlit("\u{985e}\u{578b}");
    reveal_strlit("\u{ff1a}");
    let line = label + label_colon() + value;
    assert(line.subrange(0, label.len() as int) =~= label);
    assert forall|j: int| 0 <= j < label.len() implies !occurs_at(
        label + label_colon(),
        label_colon(),
        j,
    ) by {
        let window = (label + label_colon()).subrange(j, j + 1);
        assert(window[0] == label[j]);
        assert(label_colon()[0] == '\u{ff1a}');
    }
    lemma_second_segment_of_joined(label, label_colon(), value);
}

/// The value that the last line with a label writes after the colon is the
/// value found for that label, exactly as written.
pub proof fn lemma_labelled_value_kept(
    lines: Seq<Seq<char>>,
    label: Seq<char>,
    k: int,
    value: Seq<char>,
)
    requires
        label == risk_label() || label == category_label(),
        0 <= k < lines.len(),
        lines[k] == label + label_colon() + value,
        lacks(value, label_colon()),
        forall|j: int| k < j < lines.len() ==> !occurs_at(#[trigger] lines[j], label, 0),
    ensures
        labelled_value(lines, label) == value,
    decreases lines.len(),
{
    if k == lines.len() - 1 {
        lemma_value_of_labelled_line(label, value);
    } else {
        assert(!occurs_at(lines[lines.len() - 1], label, 0));
        lemma_labelled_value_kept(lines.drop_last(), label, k, value);
    }
}

/// Where the info block of a page that parses has a line made of the risk
/// label, the colon and a value without colon, and no later line begins with
/// the risk label, the risk field is that value, with nothing trimmed.
pub proof fn lemma_risk_kept(
    title_texts: Seq<Seq<char>>,
    descr_texts: Seq<Seq<char>>,
    status_texts: Seq<Seq<char>>,
    info_lines: Seq<Seq<char>>,
    k: int,
    value: Seq<char>,
)
    requires
        0 <= k < info_lines.len(),
        info_lines[k] == risk_label() + label_colon() + value,
        lacks(value, label_colon()),
        forall|j: int|
            k < j < info_lines.len() ==> !occurs_at(#[trigger] info_lines[j], risk_label(), 0),
        fields_of(title_texts, descr_texts, status_texts, info_lines) is Ok,
    ensures
        fields_of(title_texts, descr_texts, status_texts, info_lines)->Ok_0.risk == value,
{
    lemma_labelled_value_kept(info_lines, risk_label(), k, value);
}

/// A status description made of a label, the separator and a date of the
/// shape `YYYY/MM/DD`, where the separator occurs first right after the
/// label, gives that date text, character for character.
pub proof fn lemma_date_text_kept(label: Seq<char>, date: Seq<char>)
    requires
        ends_at_first(label, date_separator()),
        is_plain_ymd(date),
    ensures
        second_segment(label + date_separator() + date, date_separator()) == Some(date),
{
    reveal_strlit(" : ");
    assert forall|j: int| !occurs_at(date, date_separator(), j) by {
        if occurs_at(date, date_separator(), j) {
            assert(date.subrange(j, j + 3)[0] == date[j]);
            assert(date_separator()[0] == ' ');
        }
    }
    lemma_second_segment_of_joined(label, date_separator(), date);
}

/// Makes the fields of a report from the texts of its page.
pub fn extract_fields(
    title_texts: &Vec<String>,
    descr_texts: &Vec<String>,
    status_texts: &Vec<String>,
    info_lines: &Vec<String>,
) -> (r: Result<ReportText, ScanError>)
    ensures
        match r {
            Ok(fields) => fields_of(
                views(title_texts@),
                views(descr_texts@),
                views(status_texts@),
                views(info_lines@),
            ) == Ok::<ReportTextView, ScanError>(fields@),
            Err(e) => fields_of(
                views(title_texts@),
                views(descr_texts@),
                views(status_texts@),
                views(info_lines@),
            ) == Err::<ReportTextView, ScanError>(e),
        },
{
    let title = trim(concat_all(title_texts).as_str());
    let description = concat_all(descr_texts);
    let last_update = match cut_second(description.as_str(), " : ") {
        Some(date_text) => date_text,
        None => { return Err(ScanError::DateSeparator); },
    };
    let status = concat_all(status_texts);
    let mut risk = String::new();
    let mut category = String::new();
    let ghost lines = views(info_lines@);
    let mut i: usize = 0;
    while i < info_lines.len()
        invariant
            i <= info_lines.len(),
            lines == views(info_lines@),
            second_segment(views(descr_texts@).flatten(), date_separator()) is Some,
            forall|j: int| 0 <= j < i ==> line_complete(#[trigger] lines[j]),
            risk@ == labelled_value(lines.take(i as int), risk_label()),
            category@ == labelled_value(lines.take(i as int), category_label()),
        decreases info_lines.len() - i,
    {
        let line = info_lines[i].as_str();
        proof {
            lemma_labels_distinct(line@);
            assert(lines[i as int] == line@);
            assert(lines.take(i + 1).drop_last() =~= lines.take(i as int));
            assert(lines.take(i + 1).last() == line@);
        }
        if begins_with(line, "\u{98a8}\u{96aa}") {
            match cut_second(line, "\u{ff1a}") {
                Some(value) => { risk = value; },
                None => {
                    assert(!line_complete(lines[i as int]));
                    return Err(ScanError::LabelValue);
                },
            }
        } else if begins_with(line, "\u{985e}\u{578b}") {
            match cut_second(line, "\u{ff1a}") {
                Some(value) => { category = value; },
                None => {
                    assert(!line_complete(lines[i as int]));
                    return Err(ScanError::LabelValue);
                },
            }
        }
        i += 1;
    }
    assert(lines.take(i as int) =~= lines);
    let fields = ReportText { title, last_update, status, risk, category };
    proof {
        let expected = fields_of(
            views(title_texts@),
            views(descr_texts@),
            views(status_texts@),
            views(info_lines@),
        );
        assert(expected is Ok);
        assert(expected->Ok_0 =~= fields@);
    }
    Ok(fields)
}

/// Reads the five fields of a report from the markup of its page.
pub fn read_fields(markup: &str) -> (r: Result<ReportText, ScanError>)
    ensures
        match r {
            Ok(fields) => fields_in(markup@) == Ok::<ReportTextView, ScanError>(fields@),
            Err(e) => fields_in(markup@) == Err::<ReportTextView, ScanError>(e),
        },
{
    let title_texts = select_inner_class_texts(markup, "li", "title", "span", "value");
    let descr_texts = select_class_texts(markup, "div", "status-descr");
    let status_texts = select_class_texts(markup, "div", "status-label");
    let info_lines = select_inner_tag_texts(markup, "div", "info", "li");
    extract_fields(&title_texts, &descr_texts, &status_texts, &info_lines)
}

/// Joins fields and an address into a report, reading the day of the last
/// update from its text.
pub fn build_report(fields: ReportText, detail_url: &str) -> (r: Result<
    VulnerabilityReport,
    ScanError,
>)
    ensures
        match r {
            Ok(report) => report.last_update.wf() && report_of(fields@, detail_url@) == Ok::<
                VulnerabilityReportView,
                ScanError,
            >(report@),
            Err(e) => report_of(fields@, detail_url@) == Err::<VulnerabilityReportView, ScanError>(
                e,
            ),
        },
        writes_calendar_date(fields.last_update@) ==> r is Ok && r->Ok_0.last_update.ymd()
            == plain_ymd(fields.last_update@),
{
    let last_update = match parse_date(fields.last_update.as_str()) {
        Ok(day) => day,
        Err(e) => { return Err(e); },
    };
    let report = VulnerabilityReport {
        title: fields.title,
        last_update,
        last_update_text: fields.last_update,
        status: fields.status,
        risk_level: fields.risk,
        category: fields.category,
        detail_url: detail_url.to_owned(),
    };
    proof {
        assert(report_of(fields@, detail_url@)->Ok_0 =~= report@);
    }
    Ok(report)
}

/// Reads the report on the page `markup`, which was found at `detail_url`.
pub fn parse_report(markup: &str, detail_url: &str) -> (r: Result<VulnerabilityReport, ScanError>)
    ensures
        match r {
            Ok(report) => report.last_update.wf() && report_in(markup@, detail_url@) == Ok::<
                VulnerabilityReportView,
                ScanError,
            >(report@),
            Err(e) => report_in(markup@, detail_url@) == Err::<VulnerabilityReportView, ScanError>(
                e,
            ),
        },
        fields_in(markup@) is Ok && writes_calendar_date(fields_in(markup@)->Ok_0.last_update)
            ==> r is Ok && r->Ok_0.last_update_text@ == fields_in(markup@)->Ok_0.last_update
            && r->Ok_0.last_update.ymd() == plain_ymd(r->Ok_0.last_update_text@),
{
    match read_fields(markup) {
        Ok(fields) => build_report(fields, detail_url),
        Err(e) => Err(e),
    }
}

} // verus!
