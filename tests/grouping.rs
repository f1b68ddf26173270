use schauspielhaus::models::{Chat, ChatKind, Play, PlayWithScreenings, Screening, Topic};
use schauspielhaus::store::{chat_with_topics, group_screenings, plays_and_topics};

fn play(id: i32) -> Play {
    Play {
        id,
        url: format!("/p{}", id),
        name: format!("P{}", id),
        description: "".to_string(),
        image_url: "".to_string(),
        meta_info: "".to_string(),
    }
}

fn screening(id: i32, play_id: i32) -> Screening {
    Screening {
        id,
        play_id,
        webid: format!("e{}", id),
        location: "".to_string(),
        url: "".to_string(),
        start_time: id as i64,
        ticket_url: "".to_string(),
    }
}

fn topic(thread: i32, play_id: i32) -> Topic {
    Topic {
        message_thread_id: thread,
        chat_id: 1,
        play_id,
        last_updated: 0,
        pinned_message_id: 0,
        pinned_message_hash: 0,
    }
}

fn ids(v: &[Screening]) -> Vec<i32> {
    v.iter().map(|s| s.id).collect()
}

#[test]
fn plays_get_their_topics_and_screenings() {
    let rows = vec![(play(1), Some(topic(7, 1))), (play(2), None)];
    let screenings = vec![screening(10, 2), screening(11, 1), screening(12, 2)];
    let r = plays_and_topics(&rows, &screenings);
    assert_eq!(r.len(), 2);
    assert_eq!(r[0].play.play.id, 1);
    assert_eq!(r[0].topic, Some(topic(7, 1)));
    assert_eq!(ids(&r[0].play.screenings), vec![11]);
    assert_eq!(r[1].topic, None);
    assert_eq!(ids(&r[1].play.screenings), vec![10, 12]);
}

#[test]
fn plays_without_screenings_get_none() {
    let g = group_screenings(&vec![play(1), play(3)], &vec![screening(1, 1)]);
    assert_eq!(g.len(), 2);
    assert_eq!(ids(&g[0].1), vec![1]);
    assert!(g[1].1.is_empty());
}

#[test]
fn chat_topics_grouped_by_show() {
    let rows = vec![
        (topic(7, 2), play(2), screening(1, 2)),
        (topic(8, 1), play(1), screening(2, 1)),
        (topic(7, 2), play(2), screening(3, 2)),
    ];
    let chat = Chat { id: 1, name: "c".to_string() };
    let r = chat_with_topics(chat, &rows);
    assert_eq!(r.chat.id, 1);
    assert_eq!(r.topics.len(), 2);
    let (t0, PlayWithScreenings { play: p0, screenings: s0 }) = &r.topics[0];
    assert_eq!(t0.message_thread_id, 7);
    assert_eq!(p0.id, 2);
    assert_eq!(ids(s0), vec![1, 3]);
    assert_eq!(r.topics[1].0.message_thread_id, 8);
    assert_eq!(ids(&r.topics[1].1.screenings), vec![2]);
}

#[test]
fn staged_screenings_carry_the_show_id() {
    let p = PlayWithScreenings { play: play(0), screenings: vec![screening(1, 0), screening(2, 0)] };
    let staged = p.as_new(42);
    assert_eq!(staged.play.url, "/p0");
    assert_eq!(staged.screenings.len(), 2);
    assert!(staged.screenings.iter().all(|s| s.play_id == 42));
    assert_eq!(staged.screenings[1].webid, "e2");
}

#[test]
fn only_forum_supergroups_support_topics() {
    assert!(ChatKind::Supergroup { is_forum: true }.supports_topics());
    assert!(!ChatKind::Supergroup { is_forum: false }.supports_topics());
    assert!(!ChatKind::Private.supports_topics());
    assert!(!ChatKind::Group.supports_topics());
    assert!(!ChatKind::Channel.supports_topics());
}
