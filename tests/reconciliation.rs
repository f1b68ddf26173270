use schauspielhaus::message::{message_hash, pinned_message};
use schauspielhaus::models::{Play, PlayAndTopic, PlayWithScreenings, Screening, Topic};
use schauspielhaus::reconcile::{Command, Event, Reconciliation};

const CHAT: i64 = -100;
const NOW: i64 = 1700000000;

fn show(id: i32, name: &str, topic: Option<Topic>) -> PlayAndTopic {
    let play = Play {
        id,
        url: format!("/{}", name.to_lowercase()),
        name: name.to_string(),
        description: "d".to_string(),
        image_url: "".to_string(),
        meta_info: "".to_string(),
    };
    let screenings = vec![
        Screening {
            id: 1,
            play_id: id,
            webid: format!("event_{}1", id),
            location: "".to_string(),
            url: "/ics".to_string(),
            start_time: NOW + 86400,
            ticket_url: "".to_string(),
        },
        Screening {
            id: 2,
            play_id: id,
            webid: format!("event_{}2", id),
            location: "".to_string(),
            url: "/ics".to_string(),
            start_time: NOW + 2 * 86400,
            ticket_url: "".to_string(),
        },
    ];
    PlayAndTopic { play: PlayWithScreenings { play, screenings }, topic }
}

/// Runs a reconciliation, answering each command with `answer`; returns the
/// commands in order.
fn drive(mut rec: Reconciliation, first: Command, answer: &mut dyn FnMut(&Command) -> Event) -> Vec<Command> {
    let mut commands = Vec::new();
    let mut c = first;
    loop {
        if let Command::Done { .. } = c {
            commands.push(c);
            return commands;
        }
        let e = answer(&c);
        assert!(rec.accepts(&e));
        commands.push(c);
        c = rec.advance(e);
    }
}

fn succeed(next_thread: &mut i32, next_message: &mut i32, saved: &mut Vec<Topic>, c: &Command) -> Event {
    match c {
        Command::CreateThread { .. } => {
            *next_thread += 1;
            Event::ThreadCreated { thread_id: *next_thread }
        }
        Command::DeleteMessage { .. } => Event::Deleted,
        Command::SendMessage { .. } => {
            *next_message += 1;
            Event::Sent { message_id: *next_message }
        }
        Command::SaveTopic { topic } => {
            saved.push(*topic);
            Event::Saved
        }
        Command::Done { .. } => unreachable!(),
    }
}

fn count(commands: &[Command], f: fn(&Command) -> bool) -> usize {
    commands.iter().filter(|c| f(c)).count()
}

fn is_create(c: &Command) -> bool {
    matches!(c, Command::CreateThread { .. })
}
fn is_send(c: &Command) -> bool {
    matches!(c, Command::SendMessage { .. })
}
fn is_delete(c: &Command) -> bool {
    matches!(c, Command::DeleteMessage { .. })
}

#[test]
fn first_and_second_run_of_one_show() {
    let (mut t, mut m, mut saved) = (10, 100, Vec::new());
    let (rec, c) = Reconciliation::new(CHAT, false, NOW, vec![show(1, "A", None)]);
    match &c {
        Command::CreateThread { title } => assert_eq!(title, "A"),
        other => panic!("{:?}", other),
    }
    let commands = drive(rec, c, &mut |c| succeed(&mut t, &mut m, &mut saved, c));
    assert_eq!(count(&commands, is_create), 1);
    assert_eq!(count(&commands, is_send), 1);
    assert_eq!(count(&commands, is_delete), 0);
    match &commands[1] {
        Command::SendMessage { thread_id, body } => {
            assert_eq!(*thread_id, 11);
            let s = show(1, "A", None);
            assert_eq!(*body, pinned_message(&s.play.play, &s.play.screenings, NOW));
        }
        other => panic!("{:?}", other),
    }
    assert!(matches!(commands.last(), Some(Command::Done { result: Ok(()) })));
    assert_eq!(saved.len(), 1);
    let topic = saved[0];
    assert_eq!(topic.message_thread_id, 11);
    assert_eq!(topic.chat_id, CHAT);
    assert_eq!(topic.play_id, 1);
    assert_eq!(topic.pinned_message_id, 101);
    assert_eq!(topic.last_updated, NOW);
    let s = show(1, "A", None);
    let body = pinned_message(&s.play.play, &s.play.screenings, NOW);
    assert_eq!(topic.pinned_message_hash, message_hash(&body) as i64);

    // Second run on the same data: no thread, no message.
    let mut saved2 = Vec::new();
    let (rec, c) = Reconciliation::new(CHAT, false, NOW, vec![show(1, "A", Some(topic))]);
    let commands = drive(rec, c, &mut |c| succeed(&mut t, &mut m, &mut saved2, c));
    assert_eq!(count(&commands, is_create), 0);
    assert_eq!(count(&commands, is_send), 0);
    assert_eq!(count(&commands, is_delete), 0);
    assert_eq!(saved2.len(), 1);
    assert_eq!(saved2[0].pinned_message_id, 101);
    assert_eq!(saved2[0].pinned_message_hash, topic.pinned_message_hash);
    assert!(matches!(commands.last(), Some(Command::Done { result: Ok(()) })));
}

#[test]
fn force_refresh_regenerates() {
    let (mut t, mut m, mut saved) = (10, 100, Vec::new());
    let s = show(1, "A", None);
    let body = pinned_message(&s.play.play, &s.play.screenings, NOW);
    let topic = Topic {
        message_thread_id: 5,
        chat_id: CHAT,
        play_id: 1,
        last_updated: 0,
        pinned_message_id: 50,
        pinned_message_hash: message_hash(&body) as i64,
    };
    let (rec, c) = Reconciliation::new(CHAT, true, NOW, vec![show(1, "A", Some(topic))]);
    assert!(matches!(c, Command::DeleteMessage { message_id: 50 }));
    let commands = drive(rec, c, &mut |c| match c {
        Command::DeleteMessage { .. } => Event::AlreadyDeleted,
        other => succeed(&mut t, &mut m, &mut saved, other),
    });
    assert_eq!(count(&commands, is_send), 1);
    assert_eq!(saved[0].pinned_message_id, 101);
    assert_eq!(saved[0].message_thread_id, 5);
}

#[test]
fn changed_hash_replaces_pinned_message() {
    let (mut t, mut m, mut saved) = (10, 100, Vec::new());
    let topic = Topic {
        message_thread_id: 5,
        chat_id: CHAT,
        play_id: 1,
        last_updated: 0,
        pinned_message_id: 50,
        pinned_message_hash: 42,
    };
    let (rec, c) = Reconciliation::new(CHAT, false, NOW, vec![show(1, "A", Some(topic))]);
    let commands = drive(rec, c, &mut |c| succeed(&mut t, &mut m, &mut saved, c));
    assert_eq!(count(&commands, is_delete), 1);
    assert_eq!(count(&commands, is_send), 1);
    assert_eq!(count(&commands, is_create), 0);
}

#[test]
fn second_show_failing_leaves_the_others() {
    let (mut t, mut m, mut saved) = (10, 100, Vec::new());
    let shows = vec![show(1, "A", None), show(2, "B", None), show(3, "C", None)];
    let (rec, c) = Reconciliation::new(CHAT, false, NOW, shows);
    let commands = drive(rec, c, &mut |c| match c {
        Command::CreateThread { title } if title == "B" => Event::Failed { reason: "boom".to_string() },
        other => succeed(&mut t, &mut m, &mut saved, other),
    });
    assert_eq!(saved.len(), 2);
    assert_eq!(saved[0].play_id, 1);
    assert_eq!(saved[1].play_id, 3);
    match commands.last() {
        Some(Command::Done { result: Err(e) }) => {
            assert_eq!(e, "Errors refreshing topics: Error creating topic for play 'B': boom");
        }
        other => panic!("{:?}", other),
    }
}

#[test]
fn failures_of_several_shows_are_joined() {
    let (mut t, mut m, mut saved) = (10, 100, Vec::new());
    let shows = vec![show(1, "A", None), show(2, "B", None)];
    let (rec, c) = Reconciliation::new(CHAT, false, NOW, shows);
    let commands = drive(rec, c, &mut |c| match c {
        Command::SendMessage { .. } => Event::Failed { reason: "no".to_string() },
        other => succeed(&mut t, &mut m, &mut saved, other),
    });
    assert!(saved.is_empty());
    match commands.last() {
        Some(Command::Done { result: Err(e) }) => assert_eq!(
            e,
            "Errors refreshing topics: Error sending play info for play 'A': no, Error sending play info for play 'B': no"
        ),
        other => panic!("{:?}", other),
    }
}

#[test]
fn thread_gone_is_reported() {
    let (mut t, mut m, mut saved) = (10, 100, Vec::new());
    let (rec, c) = Reconciliation::new(CHAT, false, NOW, vec![show(1, "A", None)]);
    let commands = drive(rec, c, &mut |c| match c {
        Command::SendMessage { .. } => Event::Failed { reason: "thread not found".to_string() },
        other => succeed(&mut t, &mut m, &mut saved, other),
    });
    assert!(saved.is_empty());
    match commands.last() {
        Some(Command::Done { result: Err(e) }) => assert_eq!(
            e,
            "Errors refreshing topics: Error sending play info for play 'A': thread not found"
        ),
        other => panic!("{:?}", other),
    }
}

#[test]
fn zero_hash_means_nothing_sent() {
    let (mut t, mut m, mut saved) = (10, 100, Vec::new());
    let topic = Topic {
        message_thread_id: 5,
        chat_id: CHAT,
        play_id: 1,
        last_updated: 0,
        pinned_message_id: 0,
        pinned_message_hash: 0,
    };
    let (rec, c) = Reconciliation::new(CHAT, false, NOW, vec![show(1, "A", Some(topic))]);
    assert!(matches!(c, Command::SendMessage { thread_id: 5, .. }));
    let commands = drive(rec, c, &mut |c| succeed(&mut t, &mut m, &mut saved, c));
    assert_eq!(count(&commands, is_send), 1);
    assert_eq!(saved[0].pinned_message_id, 101);
}

#[test]
fn failed_save_and_delete_are_reported() {
    let topic = Topic {
        message_thread_id: 5,
        chat_id: CHAT,
        play_id: 1,
        last_updated: 0,
        pinned_message_id: 50,
        pinned_message_hash: 42,
    };
    let (mut rec, c) = Reconciliation::new(CHAT, false, NOW, vec![show(1, "A", Some(topic)), show(2, "B", None)]);
    assert!(matches!(c, Command::DeleteMessage { message_id: 50 }));
    assert!(!rec.accepts(&Event::Saved));
    let c = rec.advance(Event::Failed { reason: "x".to_string() });
    assert!(matches!(c, Command::CreateThread { .. }));
    let c = rec.advance(Event::ThreadCreated { thread_id: 9 });
    assert!(matches!(c, Command::SendMessage { thread_id: 9, .. }));
    let c = rec.advance(Event::Sent { message_id: 3 });
    assert!(matches!(c, Command::SaveTopic { .. }));
    let c = rec.advance(Event::Failed { reason: "db".to_string() });
    match c {
        Command::Done { result: Err(e) } => assert_eq!(
            e,
            "Errors refreshing topics: Error deleting pinned message for play 'A': x, Error saving topic for play 'B' in database: db"
        ),
        other => panic!("{:?}", other),
    }
    assert!(!rec.accepts(&Event::Saved));
}

#[test]
fn no_shows_is_done_at_once() {
    let (rec, c) = Reconciliation::new(CHAT, false, NOW, vec![]);
    assert!(matches!(c, Command::Done { result: Ok(()) }));
    assert!(!rec.accepts(&Event::Saved));
}
