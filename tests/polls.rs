use schauspielhaus::models::Screening;
use schauspielhaus::polls::{plan_polls, poll_title};

fn screening(n: i64, start_time: i64) -> Screening {
    Screening {
        id: n as i32,
        play_id: 1,
        webid: format!("event_{}", n),
        location: "".to_string(),
        url: "/ics".to_string(),
        start_time,
        ticket_url: "".to_string(),
    }
}

const BASE: i64 = 1719853200;

#[test]
fn twenty_five_screenings_make_three_polls() {
    let screenings: Vec<Screening> = (0..25).map(|i| screening(i, BASE + 86400 * i)).collect();
    let polls = plan_polls(&screenings, BASE - 1);
    assert_eq!(polls.len(), 3);
    assert_eq!(polls[0].options.len(), 10);
    assert_eq!(polls[1].options.len(), 10);
    assert_eq!(polls[2].options.len(), 5);
    assert_eq!(polls[0].title, "When should we go? 0/2");
    assert_eq!(polls[1].title, "When should we go? 1/2");
    assert_eq!(polls[2].title, "When should we go? 2/2");
    assert_eq!(polls[0].options[0], "Monday 01.07.2024 19:00");
    assert_eq!(polls[0].options[1], "Tuesday 02.07.2024 19:00");
    for p in &polls {
        assert!(p.allows_multiple_answers);
        assert!(!p.is_anonymous);
    }
}

#[test]
fn past_screenings_are_not_offered() {
    let screenings = vec![screening(0, BASE - 86400), screening(1, BASE), screening(2, BASE + 86400)];
    let polls = plan_polls(&screenings, BASE);
    assert_eq!(polls.len(), 1);
    assert_eq!(polls[0].title, "When should we go?");
    assert_eq!(polls[0].options, vec!["Tuesday 02.07.2024 19:00".to_string()]);
    assert_eq!(screenings.len(), 3);
}

#[test]
fn no_future_screenings_no_polls() {
    let screenings = vec![screening(0, BASE)];
    assert!(plan_polls(&screenings, BASE).is_empty());
    assert!(plan_polls(&vec![], BASE).is_empty());
}

#[test]
fn twenty_screenings_make_two_polls() {
    let screenings: Vec<Screening> = (0..20).map(|i| screening(i, BASE + 60 * i)).collect();
    let polls = plan_polls(&screenings, 0);
    assert_eq!(polls.len(), 2);
    assert_eq!(polls[0].title, "When should we go? 0/1");
    assert_eq!(polls[1].title, "When should we go? 1/1");
    assert_eq!(polls[1].options.len(), 10);
}

#[test]
fn ten_screenings_make_one_poll() {
    let screenings: Vec<Screening> = (0..10).map(|i| screening(i, BASE + 60 * i)).collect();
    let polls = plan_polls(&screenings, 0);
    assert_eq!(polls.len(), 1);
    assert_eq!(polls[0].title, "When should we go?");
}

#[test]
fn poll_titles() {
    assert_eq!(poll_title(0, 0), "When should we go?");
    assert_eq!(poll_title(3, 12), "When should we go? 3/12");
}
