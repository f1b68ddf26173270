use schauspielhaus::clock::{option, to_zurich_time, LocalTime};
use schauspielhaus::icons::random_icon_color;
use schauspielhaus::message::{future_screenings, message_hash, pinned_message, sort_by_start, ticket_event};
use schauspielhaus::models::{Play, Screening};
use schauspielhaus::text::{join_lines, single_line, trim_spaces};

fn play() -> Play {
    Play {
        id: 1,
        url: "/de/play/a".to_string(),
        name: "A_1".to_string(),
        description: "Eine (kurze) Beschreibung.".to_string(),
        image_url: "".to_string(),
        meta_info: "90 min".to_string(),
    }
}

fn screening(webid: &str, start_time: i64) -> Screening {
    Screening {
        id: 0,
        play_id: 1,
        webid: webid.to_string(),
        location: "".to_string(),
        url: "/ics".to_string(),
        start_time,
        ticket_url: "".to_string(),
    }
}

#[test]
fn zurich_time_in_winter_and_summer() {
    let winter = to_zurich_time(1709659800).unwrap();
    assert_eq!(
        winter,
        LocalTime { year: 2024, month: 3, day: 5, hour: 18, minute: 30, weekday: 1 }
    );
    let summer = to_zurich_time(1719853200).unwrap();
    assert_eq!(
        summer,
        LocalTime { year: 2024, month: 7, day: 1, hour: 19, minute: 0, weekday: 0 }
    );
    assert_eq!(to_zurich_time(i64::MAX), None);
}

#[test]
fn labels_of_local_times() {
    assert_eq!(option(1709659800), "Tuesday 05.03.2024 18:30");
    assert_eq!(option(1719853200), "Monday 01.07.2024 19:00");
    let lt = LocalTime { year: 12345, month: 1, day: 2, hour: 3, minute: 4, weekday: 6 };
    assert_eq!(lt.date_time_label(), "02.01.+12345 03:04");
    assert_eq!(lt.weekday_label(), "Sunday 02.01.+12345 03:04");
    let early = LocalTime { year: 7, month: 12, day: 31, hour: 23, minute: 59, weekday: 2 };
    assert_eq!(early.date_time_label(), "31.12.0007 23:59");
}

#[test]
fn ticket_event_strips_prefix_and_suffix() {
    assert_eq!(ticket_event("event_4711@www.schauspielhaus.ch"), "4711");
    assert_eq!(ticket_event("event_event_9"), "9");
    assert_eq!(ticket_event("plain"), "plain");
    assert_eq!(ticket_event(""), "");
}

#[test]
fn pinned_message_lists_future_screenings() {
    let screenings = vec![
        screening("event_1@www.schauspielhaus.ch", 1709659800),
        screening("event_2@www.schauspielhaus.ch", 1719853200),
    ];
    let text = pinned_message(&play(), &screenings, 1709659800);
    let expected = "[*A\\_1*](https://www.schauspielhaus.ch/de/play/a) \u{1F3AD}\u{FE0F}\n\n\
Eine \\(kurze\\) Beschreibung\\.\n\n\
90 min\n\
\n\u{1F39F}\u{FE0F} *Screenings*:\
\n\\- Monday 01\\.07\\.2024 19:00 [tickets](https://www.zurichticket.ch/shz.webshop/webticket/shop?event=2)";
    assert_eq!(text, expected);
}

#[test]
fn pinned_message_without_screenings() {
    let text = pinned_message(&play(), &vec![screening("e", 5)], 5);
    assert_eq!(
        text,
        "[*A\\_1*](https://www.schauspielhaus.ch/de/play/a) \u{1F3AD}\u{FE0F}\n\nEine \\(kurze\\) Beschreibung\\.\n\n90 min\n"
    );
}

#[test]
fn hash_is_stable_and_follows_start_times() {
    let a = vec![screening("e1", 1719853200)];
    let b = vec![screening("e1", 1719853200 + 3600)];
    let text_a = pinned_message(&play(), &a, 0);
    let again = pinned_message(&play(), &a, 0);
    let text_b = pinned_message(&play(), &b, 0);
    assert_eq!(message_hash(&text_a), message_hash(&again));
    assert_ne!(text_a, text_b);
    assert_ne!(message_hash(&text_a), message_hash(&text_b));
    assert_ne!(message_hash("abc"), message_hash("abd"));
}

#[test]
fn future_screenings_keep_order() {
    let all = vec![screening("a", 10), screening("b", 5), screening("c", 20), screening("d", 11)];
    let f = future_screenings(&all, 10);
    let ids: Vec<&str> = f.iter().map(|s| s.webid.as_str()).collect();
    assert_eq!(ids, vec!["c", "d"]);
    assert_eq!(all.len(), 4);
}

#[test]
fn random_icon_color_is_offered() {
    let offered = [0x6FB9F0, 0xFFD67E, 0xCB86DB, 0x8EEE98, 0xFF93B2, 0xFB6F5F];
    for _ in 0..20 {
        assert!(offered.contains(&random_icon_color()));
    }
}

#[test]
fn text_helpers() {
    assert_eq!(trim_spaces("\t a b \n"), "a b");
    assert_eq!(trim_spaces("   "), "");
    assert_eq!(single_line(" a\nb "), "a b");
    assert_eq!(join_lines(&vec!["x".to_string(), "y".to_string()]), "x\ny");
    assert_eq!(join_lines(&vec![]), "");
}

#[test]
fn screening_link_shows_local_date() {
    let s = screening("event_7", 1719853200);
    assert_eq!(schauspielhaus::message::screening_link(&s), "[01.07.2024 19:00](/icsevent_7)");
}

#[test]
fn pinned_message_orders_by_start() {
    let screenings = vec![
        screening("event_2@www.schauspielhaus.ch", 1719853200 + 86400),
        screening("event_1@www.schauspielhaus.ch", 1719853200),
    ];
    let text = pinned_message(&play(), &screenings, 0);
    let first = text.find("event=1").unwrap();
    let second = text.find("event=2").unwrap();
    assert!(first < second);
    assert!(text.contains("Monday 01\\.07\\.2024 19:00"));
    assert!(text.contains("Tuesday 02\\.07\\.2024 19:00"));
}

#[test]
fn sort_by_start_is_stable() {
    let v = vec![screening("b", 5), screening("a", 3), screening("c", 5), screening("d", 1)];
    let sorted = sort_by_start(&v);
    let ids: Vec<&str> = sorted.iter().map(|s| s.webid.as_str()).collect();
    assert_eq!(ids, vec!["d", "a", "b", "c"]);
}
