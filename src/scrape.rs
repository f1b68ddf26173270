//! Extraction of shows and screenings from the venue's web pages and from
//! the small calendar records linked from them.
//!
//! The HTML is read with `scraper` and the calendar records with `ical`;
//! what is taken from them, and how it is cleaned, is decided here.

use crate::error::SyncError;
use crate::models::{Play, Screening};
use crate::text::{cleaned, first_from, join_lines, joined, single_line, single_lines, trimmed, unbroken, views};
use vstd::prelude::*;

verus! {

/// Show links on the calendar page.
pub const PLAY_CALENDAR_TITLES_SELECTOR: &'static str = "a.calendar-item__title";
/// The title on a show's page.
pub const PLAY_TITLE_SELECTOR: &'static str = "h1.article__title";
/// The paragraphs of the description on a show's page.
pub const PLAY_DESCRIPTION_SELECTOR: &'static str = "div.article-content__text p";
/// The subtitle on a show's page.
pub const PLAY_SUBTITLE_SELECTOR: &'static str = "h2.article__subtitle";
/// The meta information (duration, subtitles, ...) on a show's page.
pub const METAINFO_SELECTOR: &'static str = "div.article-content__info";
/// The hero image on a show's page.
pub const IMAGE_SELECTOR: &'static str = "div.article__hero img";
/// One block per screening on a show's page.
pub const SCREENING_SELECTOR: &'static str = "div.article-event";
/// The calendar link inside a screening block.
pub const CALENDAR_LINK_SELECTOR: &'static str = "div.activity-ticket__calendar a";
/// The ticket label inside a screening block.
pub const TICKET_LABEL_SELECTOR: &'static str = "span.activity-ticket__label";
/// The ticket button inside a screening block.
pub const TICKET_BUTTON_SELECTOR: &'static str = "a.activity-ticket__button";
/// The label that marks a sold-out screening; also stored as its ticket url.
pub const SOLD_OUT: &'static str = "Ausverkauft";
/// Where the label of a meta information line ends.
pub const LABEL_END: &'static str = "</span>";
/// The pattern of calendar start times.
pub const START_TIME_FORMAT: &'static str = "%Y%m%dT%H%M%S";
/// The fixed offset at which calendar start times are read (UTC+2, no
/// daylight saving).
pub const START_TIME_OFFSET: i64 = 7200;

/// The text content of each element of the HTML document `html` that the CSS
/// selector `css` matches, in document order; none if `css` is not a selector.
pub uninterp spec fn selected_texts(html: Seq<char>, css: Seq<char>) -> Option<Seq<Seq<char>>>;

/// The inner HTML of each matching element (scraper is built with its
/// `deterministic` feature, so attributes are written in document order).
pub uninterp spec fn selected_inner_html(html: Seq<char>, css: Seq<char>) -> Option<Seq<Seq<char>>>;

/// The HTML of each matching element, itself included (attributes in
/// document order, as for `selected_inner_html`).
pub uninterp spec fn selected_html(html: Seq<char>, css: Seq<char>) -> Option<Seq<Seq<char>>>;

/// The attribute `attr` of each matching element.
pub uninterp spec fn selected_attr(html: Seq<char>, css: Seq<char>, attr: Seq<char>) -> Option<
    Seq<Option<Seq<char>>>,
>;

/// The properties (name and value) of a calendar record, none if a line
/// cannot be read as a property.
pub uninterp spec fn calendar_properties_of(bytes: Seq<u8>) -> Option<Seq<(Seq<char>, Option<Seq<char>>)>>;

/// The instant that the date-time text `s` in the chrono format `fmt` names
/// when read as UTC.
pub uninterp spec fn naive_timestamp_of(s: Seq<char>, fmt: Seq<char>) -> Option<i64>;

/// Relies on scraper: `Selector::parse`, `Html::parse_document`, `Html::select`
/// and `ElementRef::text`.
#[verifier::external_body]
fn select_texts(html: &str, css: &str) -> (r: Option<Vec<String>>)
    ensures
        r.deep_view() == selected_texts(html@, css@),
{
    let selector = scraper::Selector::parse(css).ok()?;
    let doc = scraper::Html::parse_document(html);
    Some(doc.select(&selector).map(|e| e.text().collect::<String>()).collect())
}

/// Relies on scraper: `Selector::parse`, `Html::parse_document`, `Html::select`
/// and `ElementRef::inner_html`, with the `deterministic` feature that keeps
/// attributes in document order.
#[verifier::external_body]
fn select_inner_html(html: &str, css: &str) -> (r: Option<Vec<String>>)
    ensures
        r.deep_view() == selected_inner_html(html@, css@),
{
    let selector = scraper::Selector::parse(css).ok()?;
    let doc = scraper::Html::parse_document(html);
    Some(doc.select(&selector).map(|e| e.inner_html()).collect())
}

/// Relies on scraper: `Selector::parse`, `Html::parse_document`, `Html::select`
/// and `ElementRef::html`, with the `deterministic` feature that keeps
/// attributes in document order.
#[verifier::external_body]
fn select_html(html: &str, css: &str) -> (r: Option<Vec<String>>)
    ensures
        r.deep_view() == selected_html(html@, css@),
{
    let selector = scraper::Selector::parse(css).ok()?;
    let doc = scraper::Html::parse_document(html);
    Some(doc.select(&selector).map(|e| e.html()).collect())
}

/// Relies on scraper: `Selector::parse`, `Html::parse_document`, `Html::select`
/// and `Element::attr`.
#[verifier::external_body]
fn select_attr(html: &str, css: &str, attr: &str) -> (r: Option<Vec<Option<String>>>)
    ensures
        r.deep_view() == selected_attr(html@, css@, attr@),
{
    let selector = scraper::Selector::parse(css).ok()?;
    let doc = scraper::Html::parse_document(html);
    Some(doc.select(&selector).map(|e| e.value().attr(attr).map(|a| a.to_string())).collect())
}

/// Relies on ical's `PropertyParser`: the name and value of each property,
/// stopping at the first line that is not one.
#[verifier::external_body]
fn calendar_properties(bytes: &[u8]) -> (r: Option<Vec<(String, Option<String>)>>)
    ensures
        r.deep_view() == calendar_properties_of(bytes@),
{
    ical::PropertyParser::from_reader(bytes).map(|p| p.ok().map(|p| (p.name, p.value))).collect()
}

/// Relies on chrono's `NaiveDateTime::parse_from_str`, the result read as UTC
/// (`and_utc().timestamp()`).
#[verifier::external_body]
fn naive_timestamp(s: &str, fmt: &str) -> (r: Option<i64>)
    ensures
        r == naive_timestamp_of(s@, fmt@),
{
    chrono::NaiveDateTime::parse_from_str(s, fmt).ok().map(|t| t.and_utc().timestamp())
}

/// The attribute holding a link.
pub const HREF: &'static str = "href";

/// The attribute holding the hero image's address.
pub const DATA_SRC: &'static str = "data-src";

/// The links found, each once, in the order of their first appearance.
pub open spec fn distinct_links(attrs: Seq<Option<Seq<char>>>) -> Seq<Seq<char>>
    decreases attrs.len(),
{
    if attrs.len() == 0 {
        Seq::empty()
    } else {
        let d = distinct_links(attrs.drop_last());
        match attrs.last() {
            Some(u) => if d.contains(u) {
                d
            } else {
                d.push(u)
            },
            None => d,
        }
    }
}

/// The first link found, or empty.
pub open spec fn first_link(attrs: Seq<Option<Seq<char>>>) -> Seq<char>
    decreases attrs.len(),
{
    if attrs.len() == 0 {
        Seq::empty()
    } else {
        match attrs[0] {
            Some(u) => u,
            None => first_link(attrs.drop_first()),
        }
    }
}

/// A show's title: the first title element on one line, or empty.
pub open spec fn title_text(titles: Seq<Seq<char>>) -> Seq<char> {
    if titles.len() > 0 {
        trimmed(unbroken(titles[0]))
    } else {
        Seq::empty()
    }
}

/// A show's description: its paragraphs on one line each, joined by line
/// breaks, after the subtitles and an empty line when there is a subtitle.
pub open spec fn description_text(paragraphs: Seq<Seq<char>>, subtitles: Seq<Seq<char>>) -> Seq<char> {
    let d = joined(cleaned(paragraphs), seq!['\n']);
    let s = joined(cleaned(subtitles), seq!['\n']);
    if s.len() > 0 {
        s + seq!['\n', '\n'] + d
    } else {
        d
    }
}

/// A meta information block without its leading label (everything up to
/// the first `</span>`), trimmed.
pub open spec fn meta_line(h: Seq<char>) -> Seq<char> {
    match first_from(h, LABEL_END@, 0) {
        Some(k) => trimmed(h.subrange(k + LABEL_END@.len(), h.len() as int)),
        None => trimmed(h),
    }
}

/// The meta information lines that are not empty.
pub open spec fn meta_lines(blocks: Seq<Seq<char>>) -> Seq<Seq<char>>
    decreases blocks.len(),
{
    if blocks.len() == 0 {
        Seq::empty()
    } else {
        let r = meta_lines(blocks.drop_last());
        if meta_line(blocks.last()).len() > 0 {
            r.push(meta_line(blocks.last()))
        } else {
            r
        }
    }
}

/// The ticket url of a screening: the sold-out label when the first ticket
/// label says so, else the link of the first ticket button, else empty.
pub open spec fn ticket_text(labels: Seq<Seq<char>>, buttons: Seq<Option<Seq<char>>>) -> Seq<char> {
    if labels.len() > 0 && first_from(labels[0], SOLD_OUT@, 0) is Some {
        SOLD_OUT@
    } else if buttons.len() > 0 && buttons[0] is Some {
        buttons[0]->Some_0
    } else {
        Seq::empty()
    }
}

/// The calendar link and ticket url of a screening block; none when the
/// block has no calendar link.
pub open spec fn event_row_of(row: Seq<char>) -> Option<(Seq<char>, Seq<char>)> {
    match (
        selected_attr(row, CALENDAR_LINK_SELECTOR@, HREF@),
        selected_inner_html(row, TICKET_LABEL_SELECTOR@),
        selected_attr(row, TICKET_BUTTON_SELECTOR@, HREF@),
    ) {
        (Some(links), Some(labels), Some(buttons)) => if links.len() > 0 && links[0] is Some {
            Some((links[0]->Some_0, ticket_text(labels, buttons)))
        } else {
            None
        },
        _ => None,
    }
}

/// The value of the last `UID` property that has one.
pub open spec fn last_uid(ps: Seq<(Seq<char>, Option<Seq<char>>)>) -> Option<Seq<char>>
    decreases ps.len(),
{
    if ps.len() == 0 {
        None
    } else if ps.last().0 == "UID"@ && ps.last().1 is Some {
        ps.last().1
    } else {
        last_uid(ps.drop_last())
    }
}

/// A calendar start time read at the fixed offset.
pub open spec fn start_time_of(d: Seq<char>) -> Option<i64> {
    match naive_timestamp_of(d, START_TIME_FORMAT@) {
        Some(t) => if t - START_TIME_OFFSET >= i64::MIN {
            Some((t - START_TIME_OFFSET) as i64)
        } else {
            None
        },
        None => None,
    }
}

/// The start time read from the last `DTSTART` property that has a value.
pub open spec fn last_start(ps: Seq<(Seq<char>, Option<Seq<char>>)>) -> Option<i64>
    decreases ps.len(),
{
    if ps.len() == 0 {
        None
    } else if ps.last().0 == "DTSTART"@ && ps.last().1 is Some {
        start_time_of(ps.last().1->Some_0)
    } else {
        last_start(ps.drop_last())
    }
}

/// A screening block of a show's page.
#[derive(Debug)]
pub struct EventRow {
    /// Link to the calendar record, relative to the site.
    pub calendar_link: String,
    pub ticket_url: String,
}

/// What a show's page holds: the show, and one entry per screening block
/// (an error for a block without a calendar link).
#[derive(Debug)]
pub struct PlayPage {
    pub play: Play,
    pub events: Vec<Result<EventRow, SyncError>>,
}

fn selector_error() -> (e: SyncError)
    ensures
        e is Parse,
{
    SyncError::Parse(String::from_str("invalid selector"))
}

/// The show links of the calendar page, each once, in the order of their
/// first appearance; links without an address are left out.
pub fn find_plays(html_content: &str) -> (r: Result<Vec<String>, SyncError>)
    ensures
        match selected_attr(html_content@, PLAY_CALENDAR_TITLES_SELECTOR@, HREF@) {
            Some(a) => r is Ok && views(r->Ok_0@) == distinct_links(a),
            None => r matches Err(SyncError::Parse(_)),
        },
{
    let attrs = match select_attr(html_content, PLAY_CALENDAR_TITLES_SELECTOR, HREF) {
        Some(a) => a,
        None => return Err(selector_error()),
    };
    let ghost a = attrs.deep_view();
    let mut plays: Vec<String> = Vec::new();
    let mut i: usize = 0;
    while i < attrs.len()
        invariant
            a == attrs.deep_view(),
            i <= attrs@.len(),
            views(plays@) == distinct_links(a.subrange(0, i as int)),
        decreases attrs@.len() - i,
    {
        assert(a.subrange(0, i + 1).drop_last() =~= a.subrange(0, i as int));
        assert(a[i as int] == attrs@[i as int].deep_view());
        if let Some(url) = &attrs[i] {
            let mut seen = false;
            let mut j: usize = 0;
            while j < plays.len()
                invariant
                    j <= plays@.len(),
                    seen == exists|k: int| 0 <= k < j && views(plays@)[k] == url@,
                decreases plays@.len() - j,
            {
                assert(views(plays@)[j as int] == plays@[j as int]@);
                if crate::text::same_text(plays[j].as_str(), url.as_str()) {
                    seen = true;
                }
                j += 1;
            }
            if !seen {
                let ghost before = plays@;
                plays.push(url.clone());
                assert(views(plays@) =~= views(before).push(url@));
            } else {
                assert(views(plays@).contains(url@));
            }
        }
        i += 1;
    }
    assert(a.subrange(0, attrs@.len() as int) =~= a);
    Ok(plays)
}

/// The first link found, or empty.
fn first_link_in(attrs: &Vec<Option<String>>) -> (r: String)
    ensures
        r@ == first_link(attrs.deep_view()),
{
    let ghost a = attrs.deep_view();
    let mut i: usize = 0;
    assert(a.subrange(0, a.len() as int) =~= a);
    while i < attrs.len()
        invariant
            a == attrs.deep_view(),
            i <= a.len(),
            first_link(a) == first_link(a.subrange(i as int, a.len() as int)),
        decreases a.len() - i,
    {
        assert(a[i as int] == attrs@[i as int].deep_view());
        if let Some(u) = &attrs[i] {
            return u.clone();
        }
        assert(a.subrange(i as int, a.len() as int).drop_first() =~= a.subrange(i + 1, a.len() as int));
        i += 1;
    }
    String::new()
}

/// A meta information block without its leading label, trimmed.
pub fn meta_line_of(block: &str) -> (r: String)
    ensures
        r@ == meta_line(block@),
{
    match crate::text::find(block, LABEL_END) {
        Some(k) => {
            let n = block.unicode_len();
            let m = LABEL_END.unicode_len();
            let rest = crate::text::slice_chars(block, k + m, n);
            crate::text::trim_spaces(rest.as_str())
        },
        None => crate::text::trim_spaces(block),
    }
}

/// The meta information of a show: each block without its label, the empty
/// ones left out, joined by line breaks.
pub fn meta_info_of(blocks: &Vec<String>) -> (r: String)
    ensures
        r@ == joined(meta_lines(views(blocks@)), seq!['\n']),
{
    let mut lines: Vec<String> = Vec::new();
    let mut i: usize = 0;
    while i < blocks.len()
        invariant
            i <= blocks@.len(),
            views(lines@) == meta_lines(views(blocks@.subrange(0, i as int))),
        decreases blocks@.len() - i,
    {
        let ghost before = lines@;
        assert(views(blocks@.subrange(0, i + 1)).drop_last() =~= views(blocks@.subrange(0, i as int)));
        let line = meta_line_of(blocks[i].as_str());
        if line.unicode_len() > 0 {
            lines.push(line);
            assert(views(lines@) =~= views(before).push(line@));
        }
        i += 1;
    }
    assert(blocks@.subrange(0, blocks@.len() as int) =~= blocks@);
    join_lines(&lines)
}

/// A show's description from its paragraphs and subtitles.
pub fn description_of(paragraphs: &Vec<String>, subtitles: &Vec<String>) -> (r: String)
    ensures
        r@ == description_text(views(paragraphs@), views(subtitles@)),
{
    let d = join_lines(&single_lines(paragraphs));
    let s = join_lines(&single_lines(subtitles));
    if s.unicode_len() > 0 {
        let mut r = s;
        r.append("\n\n");
        proof {
            reveal_strlit("\n\n");
        }
        r.append(d.as_str());
        assert(r@ =~= description_text(views(paragraphs@), views(subtitles@)));
        r
    } else {
        d
    }
}

/// The ticket url of a screening from its ticket labels and buttons.
pub fn ticket_url_of(labels: &Vec<String>, buttons: &Vec<Option<String>>) -> (r: String)
    ensures
        r@ == ticket_text(views(labels@), buttons.deep_view()),
{
    if labels.len() > 0 && crate::text::contains_text(labels[0].as_str(), SOLD_OUT) {
        return String::from_str(SOLD_OUT);
    }
    if buttons.len() > 0 {
        assert(buttons.deep_view()[0] == buttons@[0].deep_view());
        if let Some(u) = &buttons[0] {
            return u.clone();
        }
    }
    String::new()
}

/// The calendar link and ticket url of one screening block.
pub fn event_row(row_html: &str) -> (r: Result<EventRow, SyncError>)
    ensures
        match event_row_of(row_html@) {
            Some((link, ticket)) => r is Ok && r->Ok_0.calendar_link@ == link && r->Ok_0.ticket_url@
                == ticket,
            None => r matches Err(SyncError::Parse(_)),
        },
{
    let links = match select_attr(row_html, CALENDAR_LINK_SELECTOR, HREF) {
        Some(l) => l,
        None => return Err(selector_error()),
    };
    let labels = match select_inner_html(row_html, TICKET_LABEL_SELECTOR) {
        Some(l) => l,
        None => return Err(selector_error()),
    };
    let buttons = match select_attr(row_html, TICKET_BUTTON_SELECTOR, HREF) {
        Some(b) => b,
        None => return Err(selector_error()),
    };
    if links.len() == 0 {
        return Err(SyncError::Parse(String::from_str("no calendar link in screening block")));
    }
    assert(links.deep_view()[0] == links@[0].deep_view());
    let calendar_link = match &links[0] {
        Some(l) => l.clone(),
        None => return Err(SyncError::Parse(String::from_str("calendar link without address"))),
    };
    assert(views(labels@) =~= labels.deep_view());
    let ticket_url = ticket_url_of(&labels, &buttons);
    Ok(EventRow { calendar_link, ticket_url })
}

/// Reads a calendar start time (`YYYYMMDDTHHMMSS`) at the fixed offset of
/// UTC+2; none if it does not match the pattern.
pub fn parse_time(d: &str) -> (r: Option<i64>)
    ensures
        r == start_time_of(d@),
{
    match naive_timestamp(d, START_TIME_FORMAT) {
        Some(t) => t.checked_sub(START_TIME_OFFSET),
        None => None,
    }
}

/// The screening behind a screening block, from the calendar record that
/// its link leads to: its id is the record's last `UID`, its start the last
/// `DTSTART` read at UTC+2. The record must have both. The screening is not
/// yet tied to a show (`play_id` 0) and has no location.
pub fn collect_screening(row: &EventRow, calendar: &[u8]) -> (r: Result<Screening, SyncError>)
    ensures
        match calendar_properties_of(calendar@) {
            Some(ps) => match (last_uid(ps), last_start(ps)) {
                (Some(uid), Some(start)) => r is Ok && ({
                    let s = r->Ok_0;
                    &&& s.id == 0
                    &&& s.play_id == 0
                    &&& s.webid@ == uid
                    &&& s.location@.len() == 0
                    &&& s.url@ == row.calendar_link@
                    &&& s.start_time == start
                    &&& s.ticket_url@ == row.ticket_url@
                }),
                _ => r matches Err(SyncError::Parse(_)),
            },
            None => r matches Err(SyncError::Parse(_)),
        },
{
    let props = match calendar_properties(calendar) {
        Some(p) => p,
        None => return Err(SyncError::Parse(String::from_str("malformed calendar record"))),
    };
    let ghost ps = props.deep_view();
    let mut id: Option<String> = None;
    let mut start: Option<i64> = None;
    let mut i: usize = 0;
    while i < props.len()
        invariant
            ps == props.deep_view(),
            i <= ps.len(),
            id.deep_view() == last_uid(ps.subrange(0, i as int)),
            start == last_start(ps.subrange(0, i as int)),
        decreases ps.len() - i,
    {
        assert(ps.subrange(0, i + 1).drop_last() =~= ps.subrange(0, i as int));
        assert(ps[i as int] == props@[i as int].deep_view());
        let (name, value) = &props[i];
        proof {
            reveal_strlit("UID");
            reveal_strlit("DTSTART");
            assert(ps[i as int].0 == name@);
            assert(ps[i as int].1 == value.deep_view());
            assert("UID"@.len() != "DTSTART"@.len());
        }
        if let Some(v) = value {
            if crate::text::same_text(name.as_str(), "UID") {
                id = Some(v.clone());
            } else if crate::text::same_text(name.as_str(), "DTSTART") {
                start = parse_time(v.as_str());
            }
        }
        i += 1;
    }
    assert(ps.subrange(0, ps.len() as int) =~= ps);
    match (id, start) {
        (Some(webid), Some(start_time)) => Ok(
            Screening {
                id: 0,
                play_id: 0,
                webid,
                location: String::new(),
                url: row.calendar_link.clone(),
                start_time,
                ticket_url: row.ticket_url.clone(),
            },
        ),
        _ => Err(SyncError::Parse(String::from_str("calendar record without UID or DTSTART"))),
    }
}

/// The screening blocks of a page, each read by `event_row`.
fn event_rows(rows: &Vec<String>) -> (r: Vec<Result<EventRow, SyncError>>)
    ensures
        r@.len() == rows@.len(),
        forall|k: int|
            0 <= k < rows@.len() ==> match #[trigger] r@[k] {
                Ok(e) => event_row_of(rows@[k]@) == Some((e.calendar_link@, e.ticket_url@)),
                Err(err) => event_row_of(rows@[k]@) is None && err is Parse,
            },
{
    let mut r: Vec<Result<EventRow, SyncError>> = Vec::new();
    let mut i: usize = 0;
    while i < rows.len()
        invariant
            i <= rows@.len(),
            r@.len() == i,
            forall|k: int|
                0 <= k < i ==> match #[trigger] r@[k] {
                    Ok(e) => event_row_of(rows@[k]@) == Some((e.calendar_link@, e.ticket_url@)),
                    Err(err) => event_row_of(rows@[k]@) is None && err is Parse,
                },
        decreases rows@.len() - i,
    {
        r.push(event_row(rows[i].as_str()));
        i += 1;
    }
    r
}

/// Reads a show's page: the show at `url` with its title, description,
/// meta information and image, and its screening blocks. The screenings
/// themselves come from the calendar records the blocks link to (see
/// `collect_screening`).
pub fn find_play(url: &str, play_page_content: &str) -> (r: Result<PlayPage, SyncError>)
    ensures
        ({
            let h = play_page_content@;
            let titles = selected_texts(h, PLAY_TITLE_SELECTOR@);
            let paragraphs = selected_texts(h, PLAY_DESCRIPTION_SELECTOR@);
            let subtitles = selected_texts(h, PLAY_SUBTITLE_SELECTOR@);
            let infos = selected_inner_html(h, METAINFO_SELECTOR@);
            let images = selected_attr(h, IMAGE_SELECTOR@, DATA_SRC@);
            let rows = selected_html(h, SCREENING_SELECTOR@);
            if titles is Some && paragraphs is Some && subtitles is Some && infos is Some
                && images is Some && rows is Some {
                &&& r is Ok
                &&& r->Ok_0.play.id == 0
                &&& r->Ok_0.play.url@ == url@
                &&& r->Ok_0.play.name@ == title_text(titles->Some_0)
                &&& r->Ok_0.play.description@ == description_text(
                    paragraphs->Some_0,
                    subtitles->Some_0,
                )
                &&& r->Ok_0.play.meta_info@ == joined(meta_lines(infos->Some_0), seq!['\n'])
                &&& r->Ok_0.play.image_url@ == first_link(images->Some_0)
                &&& r->Ok_0.events@.len() == rows->Some_0.len()
                &&& forall|k: int|
                    0 <= k < rows->Some_0.len() ==> match #[trigger] r->Ok_0.events@[k] {
                        Ok(e) => event_row_of(rows->Some_0[k]) == Some(
                            (e.calendar_link@, e.ticket_url@),
                        ),
                        Err(err) => event_row_of(rows->Some_0[k]) is None && err is Parse,
                    }
            } else {
                r matches Err(SyncError::Parse(_))
            }
        }),
{
    let titles = match select_texts(play_page_content, PLAY_TITLE_SELECTOR) {
        Some(t) => t,
        None => return Err(selector_error()),
    };
    let paragraphs = match select_texts(play_page_content, PLAY_DESCRIPTION_SELECTOR) {
        Some(t) => t,
        None => return Err(selector_error()),
    };
    let subtitles = match select_texts(play_page_content, PLAY_SUBTITLE_SELECTOR) {
        Some(t) => t,
        None => return Err(selector_error()),
    };
    let infos = match select_inner_html(play_page_content, METAINFO_SELECTOR) {
        Some(t) => t,
        None => return Err(selector_error()),
    };
    let images = match select_attr(play_page_content, IMAGE_SELECTOR, DATA_SRC) {
        Some(t) => t,
        None => return Err(selector_error()),
    };
    let rows = match select_html(play_page_content, SCREENING_SELECTOR) {
        Some(t) => t,
        None => return Err(selector_error()),
    };
    assert(views(titles@) =~= titles.deep_view());
    assert(views(paragraphs@) =~= paragraphs.deep_view());
    assert(views(subtitles@) =~= subtitles.deep_view());
    assert(views(infos@) =~= infos.deep_view());
    assert(views(rows@) =~= rows.deep_view());
    let mut play = Play::at_url(url);
    play.name = if titles.len() > 0 {
        single_line(titles[0].as_str())
    } else {
        String::new()
    };
    play.description = description_of(&paragraphs, &subtitles);
    play.meta_info = meta_info_of(&infos);
    play.image_url = first_link_in(&images);
    let events = event_rows(&rows);
    assert forall|k: int| 0 <= k < rows@.len() implies rows.deep_view()[k] == #[trigger] rows@[k]@ by {
        assert(views(rows@)[k] == rows@[k]@);
    }
    Ok(PlayPage { play, events })
}

} // verus!
