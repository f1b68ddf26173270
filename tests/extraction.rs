use schauspielhaus::error::SyncError;
use schauspielhaus::scrape::{
    collect_screening, event_row, find_play, find_plays, meta_info_of, meta_line_of, parse_time,
    ticket_url_of, EventRow,
};

const CALENDAR_PAGE: &str = r#"<html><body>
<div class="calendar-item"><a class="calendar-item__title" href="/de/play/b">B</a></div>
<div class="calendar-item"><a class="calendar-item__title" href="/de/play/a">A</a></div>
<div class="calendar-item"><a class="calendar-item__title" href="/de/play/b">B again</a></div>
<div class="calendar-item"><a class="calendar-item__title">No link</a></div>
<a class="other" href="/de/other">Other</a>
</body></html>"#;

const PLAY_PAGE: &str = r#"<html><body>
<div class="article__hero"><img src="x.jpg"><img data-src="/img/hero.jpg"></div>
<h1 class="article__title">Der zerbrochne
 Krug </h1>
<h2 class="article__subtitle">Ein Lustspiel</h2>
<div class="article-content__text"><p> Erster
Absatz </p><p>Zweiter Absatz</p></div>
<div class="article-content__info"><span>Dauer</span> 2h 10min </div>
<div class="article-content__info">   </div>
<div class="article-content__info">Mit Untertiteln</div>
<div class="article-event">
  <div class="activity-ticket__calendar"><a href="/de/ics/1">ics</a></div>
  <a class="activity-ticket__button" href="https://tickets.example/1">Tickets</a>
</div>
<div class="article-event">
  <div class="activity-ticket__calendar"><a href="/de/ics/2">ics</a></div>
  <span class="activity-ticket__label">Ausverkauft</span>
</div>
<div class="article-event">
  <span class="activity-ticket__label">Abendkasse</span>
</div>
</body></html>"#;

#[test]
fn find_plays_keeps_each_link_once_in_order() {
    let plays = find_plays(CALENDAR_PAGE).unwrap();
    assert_eq!(plays, vec!["/de/play/b".to_string(), "/de/play/a".to_string()]);
}

#[test]
fn find_plays_on_page_without_links() {
    let plays = find_plays("<html><body><p>nothing</p></body></html>").unwrap();
    assert!(plays.is_empty());
}

#[test]
fn find_play_reads_the_show_page() {
    let page = find_play("/de/play/der-zerbrochne-krug", PLAY_PAGE).unwrap();
    assert_eq!(page.play.id, 0);
    assert_eq!(page.play.url, "/de/play/der-zerbrochne-krug");
    assert_eq!(page.play.name, "Der zerbrochne  Krug");
    assert_eq!(page.play.description, "Ein Lustspiel\n\nErster Absatz\nZweiter Absatz");
    assert_eq!(page.play.meta_info, "2h 10min\nMit Untertiteln");
    assert_eq!(page.play.image_url, "/img/hero.jpg");
    assert_eq!(page.events.len(), 3);
    match &page.events[0] {
        Ok(row) => {
            assert_eq!(row.calendar_link, "/de/ics/1");
            assert_eq!(row.ticket_url, "https://tickets.example/1");
        }
        Err(e) => panic!("first block: {:?}", e),
    }
    match &page.events[1] {
        Ok(row) => {
            assert_eq!(row.calendar_link, "/de/ics/2");
            assert_eq!(row.ticket_url, "Ausverkauft");
        }
        Err(e) => panic!("second block: {:?}", e),
    }
    assert!(matches!(page.events[2], Err(SyncError::Parse(_))));
}

#[test]
fn find_play_without_subtitle_or_title() {
    let page = find_play("/x", "<div class=\"article-content__text\"><p>Nur Text</p></div>").unwrap();
    assert_eq!(page.play.name, "");
    assert_eq!(page.play.description, "Nur Text");
    assert_eq!(page.play.meta_info, "");
    assert_eq!(page.play.image_url, "");
    assert!(page.events.is_empty());
}

#[test]
fn event_row_without_ticket_information() {
    let row = event_row(r#"<div class="article-event"><div class="activity-ticket__calendar"><a href="/c">c</a></div></div>"#).unwrap();
    assert_eq!(row.calendar_link, "/c");
    assert_eq!(row.ticket_url, "");
}

#[test]
fn event_row_calendar_link_without_address() {
    let r = event_row(r#"<div class="activity-ticket__calendar"><a>c</a></div>"#);
    assert!(matches!(r, Err(SyncError::Parse(_))));
}

#[test]
fn ticket_url_prefers_sold_out_label() {
    let labels = vec!["<b>Ausverkauft</b>".to_string()];
    let buttons = vec![Some("https://t/1".to_string())];
    assert_eq!(ticket_url_of(&labels, &buttons), "Ausverkauft");
    let labels = vec!["Tickets".to_string()];
    assert_eq!(ticket_url_of(&labels, &buttons), "https://t/1");
    assert_eq!(ticket_url_of(&labels, &vec![None]), "");
    assert_eq!(ticket_url_of(&vec![], &vec![]), "");
}

#[test]
fn meta_lines_drop_labels_and_blanks() {
    assert_eq!(meta_line_of("<span>Dauer</span> 2h </span> x"), "2h </span> x");
    assert_eq!(meta_line_of("  plain  "), "plain");
    let blocks = vec![
        "<span>A</span>one".to_string(),
        "<span>B</span>   ".to_string(),
        "two".to_string(),
    ];
    assert_eq!(meta_info_of(&blocks), "one\ntwo");
}

#[test]
fn parse_time_reads_at_fixed_offset() {
    assert_eq!(parse_time("20240305T193000"), Some(1709659800));
    assert_eq!(parse_time("20240701T190000"), Some(1719853200));
    assert_eq!(parse_time("2024-03-05 19:30"), None);
    assert_eq!(parse_time(""), None);
}

fn row(link: &str, ticket: &str) -> EventRow {
    EventRow { calendar_link: link.to_string(), ticket_url: ticket.to_string() }
}

#[test]
fn collect_screening_from_calendar_record() {
    let ics = b"BEGIN:VCALENDAR\r\nBEGIN:VEVENT\r\nUID:event_4711@www.schauspielhaus.ch\r\nDTSTART:20240305T193000\r\nSUMMARY:Krug\r\nEND:VEVENT\r\nEND:VCALENDAR\r\n";
    let s = collect_screening(&row("/de/ics/1", "https://t/1"), ics).unwrap();
    assert_eq!(s.id, 0);
    assert_eq!(s.play_id, 0);
    assert_eq!(s.webid, "event_4711@www.schauspielhaus.ch");
    assert_eq!(s.location, "");
    assert_eq!(s.url, "/de/ics/1");
    assert_eq!(s.start_time, 1709659800);
    assert_eq!(s.ticket_url, "https://t/1");
}

#[test]
fn collect_screening_needs_uid_and_start() {
    let no_uid = b"BEGIN:VEVENT\nDTSTART:20240305T193000\nEND:VEVENT\n";
    assert!(matches!(collect_screening(&row("/c", ""), no_uid), Err(SyncError::Parse(_))));
    let bad_start = b"BEGIN:VEVENT\nUID:x\nDTSTART:tomorrow\nEND:VEVENT\n";
    assert!(matches!(collect_screening(&row("/c", ""), bad_start), Err(SyncError::Parse(_))));
}

#[test]
fn collect_screening_takes_last_values() {
    let ics = b"UID:first\nDTSTART:20240305T193000\nUID:second\nDTSTART:20240701T190000\n";
    let s = collect_screening(&row("/c", ""), ics).unwrap();
    assert_eq!(s.webid, "second");
    assert_eq!(s.start_time, 1719853200);
}
