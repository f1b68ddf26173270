//! The store's side of the library: how rows read from the database are put
//! together into shows with their screenings and topics.
//!
//! The queries themselves run against the database outside the library; the
//! rows they return are handed in here.

use crate::models::{Chat, ChatWithTopics, Play, PlayAndTopic, PlayWithScreenings, Screening, Topic};
use vstd::prelude::*;

verus! {

/// The screenings of the show `play_id`, in their order.
pub open spec fn screenings_of_play(ss: Seq<Screening>, play_id: i32) -> Seq<Screening> {
    ss.filter(|s: Screening| s.play_id == play_id)
}

/// The screenings of the show `play_id`, in their order.
pub fn screenings_for(screenings: &Vec<Screening>, play_id: i32) -> (r: Vec<Screening>)
    ensures
        r@ == screenings_of_play(screenings@, play_id),
{
    let mut r: Vec<Screening> = Vec::new();
    let mut i: usize = 0;
    while i < screenings.len()
        invariant
            i <= screenings@.len(),
            r@ == screenings_of_play(screenings@.subrange(0, i as int), play_id),
        decreases screenings@.len() - i,
    {
        assert(screenings@.subrange(0, i + 1).drop_last() =~= screenings@.subrange(0, i as int));
        proof {
            reveal(Seq::filter);
        }
        if screenings[i].play_id == play_id {
            r.push(screenings[i].duplicate());
        }
        i += 1;
    }
    assert(screenings@.subrange(0, screenings@.len() as int) =~= screenings@);
    r
}

/// Each show with its topic in a chat (if any) and its screenings, from the
/// rows of shows outer-joined with the chat's topics and from the screenings
/// of those shows (in the order the caller wants them listed, by start time).
pub fn plays_and_topics(rows: &Vec<(Play, Option<Topic>)>, screenings: &Vec<Screening>) -> (r: Vec<
    PlayAndTopic,
>)
    ensures
        r@.len() == rows@.len(),
        forall|k: int|
            0 <= k < rows@.len() ==> {
                &&& (#[trigger] r@[k]).play.play == rows@[k].0
                &&& r@[k].topic == rows@[k].1
                &&& r@[k].play.screenings@ == screenings_of_play(screenings@, rows@[k].0.id)
            },
{
    let mut r: Vec<PlayAndTopic> = Vec::new();
    let mut i: usize = 0;
    while i < rows.len()
        invariant
            i <= rows@.len(),
            r@.len() == i,
            forall|k: int|
                0 <= k < i ==> {
                    &&& (#[trigger] r@[k]).play.play == rows@[k].0
                    &&& r@[k].topic == rows@[k].1
                    &&& r@[k].play.screenings@ == screenings_of_play(screenings@, rows@[k].0.id)
                },
        decreases rows@.len() - i,
    {
        let (play, topic) = &rows[i];
        let own = screenings_for(screenings, play.id);
        r.push(
            PlayAndTopic { play: PlayWithScreenings { play: play.duplicate(), screenings: own }, topic: *topic },
        );
        i += 1;
    }
    r
}

/// Each show with its screenings.
pub fn group_screenings(plays: &Vec<Play>, screenings: &Vec<Screening>) -> (r: Vec<(Play, Vec<Screening>)>)
    ensures
        r@.len() == plays@.len(),
        forall|k: int|
            0 <= k < plays@.len() ==> {
                &&& (#[trigger] r@[k]).0 == plays@[k]
                &&& r@[k].1@ == screenings_of_play(screenings@, plays@[k].id)
            },
{
    let mut r: Vec<(Play, Vec<Screening>)> = Vec::new();
    let mut i: usize = 0;
    while i < plays.len()
        invariant
            i <= plays@.len(),
            r@.len() == i,
            forall|k: int|
                0 <= k < i ==> {
                    &&& (#[trigger] r@[k]).0 == plays@[k]
                    &&& r@[k].1@ == screenings_of_play(screenings@, plays@[k].id)
                },
        decreases plays@.len() - i,
    {
        let own = screenings_for(screenings, plays[i].id);
        r.push((plays[i].duplicate(), own));
        i += 1;
    }
    r
}

/// The show ids of the rows' topics, each once, in the order of their first
/// appearance.
pub open spec fn topic_play_ids(rows: Seq<(Topic, Play, Screening)>) -> Seq<i32>
    decreases rows.len(),
{
    if rows.len() == 0 {
        Seq::empty()
    } else {
        let d = topic_play_ids(rows.drop_last());
        if d.contains(rows.last().0.play_id) {
            d
        } else {
            d.push(rows.last().0.play_id)
        }
    }
}

/// The rows whose topic belongs to the show `play_id`, in their order.
pub open spec fn rows_of_play(rows: Seq<(Topic, Play, Screening)>, play_id: i32) -> Seq<
    (Topic, Play, Screening),
> {
    rows.filter(|x: (Topic, Play, Screening)| x.0.play_id == play_id)
}

/// The screenings of some rows.
pub open spec fn row_screenings(rows: Seq<(Topic, Play, Screening)>) -> Seq<Screening> {
    rows.map_values(|x: (Topic, Play, Screening)| x.2)
}

proof fn lemma_listed_ids_have_rows(rows: Seq<(Topic, Play, Screening)>, id: i32)
    requires
        topic_play_ids(rows).contains(id),
    ensures
        rows_of_play(rows, id).len() > 0,
    decreases rows.len(),
{
    reveal(Seq::filter);
    let d = topic_play_ids(rows.drop_last());
    if rows.last().0.play_id != id {
        assert(d.contains(id)) by {
            if !d.contains(rows.last().0.play_id) {
                let k = choose|k: int| 0 <= k < topic_play_ids(rows).len() && topic_play_ids(rows)[k] == id;
                assert(d.push(rows.last().0.play_id)[k] == id);
                assert(k < d.len());
                assert(d[k] == id);
            }
        }
        lemma_listed_ids_have_rows(rows.drop_last(), id);
    }
}

/// The topic, show and screenings of the rows whose topic belongs to the
/// show `play_id`: the topic and show of the first such row, the screenings
/// of all of them; none if there is no such row.
fn group_of(rows: &Vec<(Topic, Play, Screening)>, play_id: i32) -> (r: Option<(Topic, PlayWithScreenings)>)
    ensures
        (r is None) == (rows_of_play(rows@, play_id).len() == 0),
        r matches Some(g) ==> {
            let own = rows_of_play(rows@, play_id);
            &&& g.0 == own[0].0
            &&& g.1.play == own[0].1
            &&& g.1.screenings@ == row_screenings(own)
        },
{
    let mut first: Option<(Topic, Play)> = None;
    let mut screenings: Vec<Screening> = Vec::new();
    let mut i: usize = 0;
    while i < rows.len()
        invariant
            i <= rows@.len(),
            ({
                let own = rows_of_play(rows@.subrange(0, i as int), play_id);
                &&& screenings@ == row_screenings(own)
                &&& (first is None) == (own.len() == 0)
                &&& first matches Some(f) ==> f.0 == own[0].0 && f.1 == own[0].1
            }),
        decreases rows@.len() - i,
    {
        let ghost own = rows_of_play(rows@.subrange(0, i as int), play_id);
        assert(rows@.subrange(0, i + 1).drop_last() =~= rows@.subrange(0, i as int));
        proof {
            reveal(Seq::filter);
        }
        let (topic, play, screening) = &rows[i];
        if topic.play_id == play_id {
            if first.is_none() {
                first = Some((*topic, play.duplicate()));
            }
            let ghost before = screenings@;
            screenings.push(screening.duplicate());
            proof {
                let own2 = rows_of_play(rows@.subrange(0, i + 1), play_id);
                assert(own2 == own.push(rows@[i as int]));
                assert(row_screenings(own2) =~= row_screenings(own).push(rows@[i as int].2));
                assert(own.len() > 0 ==> own2[0] == own[0]);
            }
        }
        i += 1;
    }
    assert(rows@.subrange(0, rows@.len() as int) =~= rows@);
    match first {
        Some((topic, play)) => Some((topic, PlayWithScreenings { play, screenings })),
        None => None,
    }
}

/// A chat with each of its topics and the show behind it, from the rows of
/// the chat's topics joined with their show and each of its screenings. A
/// show's entry takes the topic and show of its first row and the screenings
/// of all its rows; the entries follow the order in which the shows first
/// appear.
pub fn chat_with_topics(chat: Chat, rows: &Vec<(Topic, Play, Screening)>) -> (r: ChatWithTopics)
    ensures
        r.chat == chat,
        r.topics@.len() == topic_play_ids(rows@).len(),
        forall|k: int|
            0 <= k < r.topics@.len() ==> {
                let own = rows_of_play(rows@, topic_play_ids(rows@)[k]);
                &&& (#[trigger] r.topics@[k]).0 == own[0].0
                &&& r.topics@[k].1.play == own[0].1
                &&& r.topics@[k].1.screenings@ == row_screenings(own)
            },
{
    let mut ids: Vec<i32> = Vec::new();
    let mut i: usize = 0;
    while i < rows.len()
        invariant
            i <= rows@.len(),
            ids@ == topic_play_ids(rows@.subrange(0, i as int)),
        decreases rows@.len() - i,
    {
        assert(rows@.subrange(0, i + 1).drop_last() =~= rows@.subrange(0, i as int));
        let id = rows[i].0.play_id;
        let mut seen = false;
        let mut j: usize = 0;
        while j < ids.len()
            invariant
                j <= ids@.len(),
                seen == exists|k: int| 0 <= k < j && ids@[k] == id,
            decreases ids@.len() - j,
        {
            if ids[j] == id {
                seen = true;
            }
            j += 1;
        }
        if !seen {
            ids.push(id);
        }
        i += 1;
    }
    assert(rows@.subrange(0, rows@.len() as int) =~= rows@);
    let mut topics: Vec<(Topic, PlayWithScreenings)> = Vec::new();
    let mut k: usize = 0;
    while k < ids.len()
        invariant
            ids@ == topic_play_ids(rows@),
            k <= ids@.len(),
            topics@.len() == k,
            forall|m: int|
                0 <= m < k ==> {
                    let own = rows_of_play(rows@, ids@[m]);
                    &&& (#[trigger] topics@[m]).0 == own[0].0
                    &&& topics@[m].1.play == own[0].1
                    &&& topics@[m].1.screenings@ == row_screenings(own)
                },
        decreases ids@.len() - k,
    {
        proof {
            assert(ids@.contains(ids@[k as int]));
            lemma_listed_ids_have_rows(rows@, ids@[k as int]);
        }
        match group_of(rows, ids[k]) {
            Some(g) => topics.push(g),
            None => {},
        }
        k += 1;
    }
    ChatWithTopics { chat, topics }
}

} // verus!
