use schauspielhaus::models::{Play, PlayWithScreenings, Screening, Topic};
use schauspielhaus::reconcile::{Command, Event, Reconciliation};
use schauspielhaus::scrape::{collect_screening, find_play};
use schauspielhaus::store::plays_and_topics;
use schauspielhaus::tables::Store;

fn play(url: &str, name: &str) -> Play {
    Play {
        id: 0,
        url: url.to_string(),
        name: name.to_string(),
        description: "".to_string(),
        image_url: "".to_string(),
        meta_info: "".to_string(),
    }
}

fn screening(webid: &str, start_time: i64) -> Screening {
    Screening {
        id: 0,
        play_id: 0,
        webid: webid.to_string(),
        location: "".to_string(),
        url: "/ics".to_string(),
        start_time,
        ticket_url: "".to_string(),
    }
}

fn snapshot(store: &Store) -> Vec<String> {
    let mut rows: Vec<String> = store
        .plays
        .iter()
        .map(|p| format!("{} {} {} {}", p.id, p.url, p.name, p.description))
        .collect();
    rows.extend(store.screenings.iter().map(|s| {
        format!("{} {} {} {} {}", s.id, s.play_id, s.webid, s.start_time, s.ticket_url)
    }));
    rows
}

#[test]
fn upsert_twice_keeps_rows_and_values() {
    let shows = vec![
        PlayWithScreenings {
            play: play("/a", "A"),
            screenings: vec![screening("e1", 10), screening("e2", 20)],
        },
        PlayWithScreenings { play: play("/b", "B"), screenings: vec![screening("e3", 30)] },
    ];
    let mut store = Store::new();
    for s in &shows {
        store.upsert_play_with_screenings(s).unwrap();
    }
    let once = snapshot(&store);
    for s in &shows {
        let again = store.upsert_play_with_screenings(s).unwrap();
        assert_eq!(again.screenings.len(), s.screenings.len());
    }
    assert_eq!(snapshot(&store), once);
    assert_eq!(store.plays.len(), 2);
    assert_eq!(store.screenings.len(), 3);
}

#[test]
fn upsert_overwrites_by_key() {
    let mut store = Store::new();
    let first = PlayWithScreenings { play: play("/a", "A"), screenings: vec![screening("e1", 10)] };
    let row = store.upsert_play_with_screenings(&first).unwrap();
    assert_eq!(row.play.id, 1);
    assert_eq!(row.screenings.len(), 1);
    assert_eq!(row.screenings[0].id, 1);
    assert_eq!(row.screenings[0].play_id, 1);
    let mut changed = play("/a", "A2");
    changed.description = "new".to_string();
    let second = PlayWithScreenings { play: changed, screenings: vec![screening("e1", 99), screening("e2", 5)] };
    let row = store.upsert_play_with_screenings(&second).unwrap();
    assert_eq!(row.play.id, 1);
    assert_eq!(row.play.name, "A2");
    assert_eq!(row.screenings.len(), 2);
    assert_eq!(row.screenings[0].start_time, 99);
    assert_eq!(row.screenings[1].id, 2);
    assert_eq!(store.plays.len(), 1);
    assert_eq!(store.plays[0].description, "new");
    assert_eq!(store.screenings.len(), 2);
    assert_eq!(store.screenings[0].start_time, 99);
    assert_eq!(store.screenings[0].play_id, 1);
    assert_eq!(store.screenings[1].id, 2);
    let other = PlayWithScreenings { play: play("/b", "B"), screenings: vec![screening("e2", 7)] };
    let row = store.upsert_play_with_screenings(&other).unwrap();
    assert_eq!(row.play.id, 2);
    assert_eq!(row.screenings[0].id, 2);
    assert_eq!(store.screenings.len(), 2);
    assert_eq!(store.screenings[1].play_id, 2);
}

const PAGE: &str = r#"<html><body>
<h1 class="article__title">A</h1>
<div class="article-event"><div class="activity-ticket__calendar"><a href="/ics/1">i</a></div></div>
<div class="article-event"><div class="activity-ticket__calendar"><a href="/ics/2">i</a></div></div>
</body></html>"#;

#[test]
fn end_to_end_one_show_two_screenings() {
    let now: i64 = 1700000000;
    let page = find_play("/a", PAGE).unwrap();
    assert_eq!(page.play.name, "A");
    let calendars: [&[u8]; 2] = [
        b"UID:event_1@www.schauspielhaus.ch\nDTSTART:20301001T200000\n",
        b"UID:event_2@www.schauspielhaus.ch\nDTSTART:20301002T200000\n",
    ];
    let mut screenings = Vec::new();
    for (row, ics) in page.events.iter().zip(calendars.iter()) {
        let row = row.as_ref().unwrap();
        screenings.push(collect_screening(row, ics).unwrap());
    }
    let show = PlayWithScreenings { play: page.play, screenings };

    let mut store = Store::new();
    let row = store.upsert_play_with_screenings(&show).unwrap().play;
    assert_eq!(store.plays.len(), 1);
    assert_eq!(store.screenings.len(), 2);
    assert_ne!(store.screenings[0].webid, store.screenings[1].webid);

    let mut topics: Vec<Topic> = Vec::new();
    let mut run = |topics: &mut Vec<Topic>| -> (usize, usize) {
        let rows = vec![(row.duplicate(), topics.iter().copied().find(|t| t.play_id == row.id))];
        let shows = plays_and_topics(&rows, &store.screenings);
        let (mut rec, mut c) = Reconciliation::new(-1, false, now, shows);
        let (mut threads, mut messages) = (0, 0);
        loop {
            let e = match &c {
                Command::CreateThread { .. } => {
                    threads += 1;
                    Event::ThreadCreated { thread_id: 3 }
                }
                Command::DeleteMessage { .. } => Event::Deleted,
                Command::SendMessage { .. } => {
                    messages += 1;
                    Event::Sent { message_id: 30 }
                }
                Command::SaveTopic { topic } => {
                    topics.retain(|t| !(t.chat_id == topic.chat_id && t.message_thread_id == topic.message_thread_id));
                    topics.push(*topic);
                    Event::Saved
                }
                Command::Done { result } => {
                    assert!(result.is_ok());
                    break;
                }
            };
            c = rec.advance(e);
        }
        (threads, messages)
    };
    assert_eq!(run(&mut topics), (1, 1));
    assert_eq!(topics.len(), 1);
    assert_eq!(run(&mut topics), (0, 0));
    assert_eq!(topics.len(), 1);
}
