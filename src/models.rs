//! The records the library works on: shows ("plays"), their screenings, the
//! subscribed chats and the discussion topics kept for each show in a chat.
//!
//! Times are whole seconds since the Unix epoch (UTC).

use vstd::prelude::*;

verus! {

/// A subscribed group chat.
#[derive(Debug)]
pub struct Chat {
    pub id: i64,
    /// Only used for logging.
    pub name: String,
}

/// A chat as it is written to the store.
#[derive(Debug)]
pub struct NewChat<'a> {
    pub id: i64,
    pub name: &'a str,
}

/// What the chat platform reports about the kind of a chat.
#[derive(Debug, Clone, Copy, PartialEq, Eq, Structural)]
pub enum ChatKind {
    Private,
    Group,
    Supergroup { is_forum: bool },
    Channel,
}

impl ChatKind {
    /// Whether shows can get discussion threads here: only in a supergroup
    /// with topics enabled.
    pub fn supports_topics(&self) -> (r: bool)
        ensures
            r == (*self == ChatKind::Supergroup { is_forum: true }),
    {
        match self {
            ChatKind::Supergroup { is_forum } => *is_forum,
            ChatKind::Private | ChatKind::Group | ChatKind::Channel => false,
        }
    }
}

/// The discussion thread kept for one show in one chat.
#[derive(Debug, Clone, Copy, PartialEq, Eq, Structural)]
pub struct Topic {
    pub message_thread_id: i32,
    pub chat_id: i64,
    pub play_id: i32,
    /// When the topic was last reconciled.
    pub last_updated: i64,
    /// The pinned summary message, 0 if none was sent.
    pub pinned_message_id: i32,
    /// Hash of the body of the pinned message last sent (as stored, two's complement).
    pub pinned_message_hash: i64,
}

/// A show, identified by its `url`.
#[derive(Debug)]
pub struct Play {
    pub id: i32,
    pub url: String,
    pub name: String,
    pub description: String,
    pub image_url: String,
    pub meta_info: String,
}

/// A show as it is written to the store (the store picks the id).
#[derive(Debug)]
pub struct NewPlay<'a> {
    pub url: &'a str,
    pub name: &'a str,
    pub description: &'a str,
    pub image_url: &'a str,
    pub meta_info: &'a str,
}

/// One scheduled occurrence of a show, identified by its calendar id `webid`.
#[derive(Debug)]
pub struct Screening {
    pub id: i32,
    pub play_id: i32,
    pub webid: String,
    pub location: String,
    /// Link to the calendar record of the screening.
    pub url: String,
    pub start_time: i64,
    /// The ticket link, the sold-out label, or empty when unknown.
    pub ticket_url: String,
}

/// A screening as it is written to the store, under the id of its show.
#[derive(Debug)]
pub struct NewScreening<'a> {
    pub play_id: i32,
    pub webid: &'a str,
    pub location: &'a str,
    pub url: &'a str,
    pub start_time: i64,
    pub ticket_url: &'a str,
}

/// A show with its screenings.
#[derive(Debug)]
pub struct PlayWithScreenings {
    pub play: Play,
    pub screenings: Vec<Screening>,
}

/// A show with its screenings as written to the store.
#[derive(Debug)]
pub struct NewPlayWithScreenings<'a> {
    pub play: NewPlay<'a>,
    pub screenings: Vec<NewScreening<'a>>,
}

/// A show with its screenings and the topic of a given chat, if there is one.
#[derive(Debug)]
pub struct PlayAndTopic {
    pub play: PlayWithScreenings,
    pub topic: Option<Topic>,
}

/// A chat with each of its topics and the show behind it.
#[derive(Debug)]
pub struct ChatWithTopics {
    pub chat: Chat,
    pub topics: Vec<(Topic, PlayWithScreenings)>,
}

impl Chat {
    pub fn duplicate(&self) -> (r: Chat)
        ensures
            r == *self,
    {
        Chat { id: self.id, name: self.name.clone() }
    }

    /// The chat as written to the store.
    pub fn as_new(&self) -> (r: NewChat<'_>)
        ensures
            r.id == self.id,
            r.name@ == self.name@,
    {
        NewChat { id: self.id, name: self.name.as_str() }
    }
}

impl Play {
    /// A show with no id and empty text fields, at `url`.
    pub fn at_url(url: &str) -> (r: Play)
        ensures
            r.id == 0,
            r.url@ == url@,
            r.name@.len() == 0,
            r.description@.len() == 0,
            r.image_url@.len() == 0,
            r.meta_info@.len() == 0,
    {
        Play {
            id: 0,
            url: url.to_string(),
            name: String::new(),
            description: String::new(),
            image_url: String::new(),
            meta_info: String::new(),
        }
    }

    pub fn duplicate(&self) -> (r: Play)
        ensures
            r == *self,
    {
        Play {
            id: self.id,
            url: self.url.clone(),
            name: self.name.clone(),
            description: self.description.clone(),
            image_url: self.image_url.clone(),
            meta_info: self.meta_info.clone(),
        }
    }

    /// The mutable fields of the show, as written to the store.
    pub fn as_new(&self) -> (r: NewPlay<'_>)
        ensures
            r.url@ == self.url@,
            r.name@ == self.name@,
            r.description@ == self.description@,
            r.image_url@ == self.image_url@,
            r.meta_info@ == self.meta_info@,
    {
        NewPlay {
            url: self.url.as_str(),
            name: self.name.as_str(),
            description: self.description.as_str(),
            image_url: self.image_url.as_str(),
            meta_info: self.meta_info.as_str(),
        }
    }
}

impl Screening {
    pub fn duplicate(&self) -> (r: Screening)
        ensures
            r == *self,
    {
        Screening {
            id: self.id,
            play_id: self.play_id,
            webid: self.webid.clone(),
            location: self.location.clone(),
            url: self.url.clone(),
            start_time: self.start_time,
            ticket_url: self.ticket_url.clone(),
        }
    }

    /// The mutable fields of the screening, as written to the store under the show `play_id`.
    pub fn as_new(&self, play_id: i32) -> (r: NewScreening<'_>)
        ensures
            r.play_id == play_id,
            r.webid@ == self.webid@,
            r.location@ == self.location@,
            r.url@ == self.url@,
            r.start_time == self.start_time,
            r.ticket_url@ == self.ticket_url@,
    {
        NewScreening {
            play_id,
            webid: self.webid.as_str(),
            location: self.location.as_str(),
            url: self.url.as_str(),
            start_time: self.start_time,
            ticket_url: self.ticket_url.as_str(),
        }
    }
}

/// A copy of each screening.
pub fn duplicate_screenings(v: &Vec<Screening>) -> (r: Vec<Screening>)
    ensures
        r@ == v@,
{
    let mut r: Vec<Screening> = Vec::new();
    let mut i: usize = 0;
    while i < v.len()
        invariant
            i <= v@.len(),
            r@ == v@.subrange(0, i as int),
        decreases v@.len() - i,
    {
        r.push(v[i].duplicate());
        assert(r@ =~= v@.subrange(0, i + 1));
        i += 1;
    }
    assert(v@.subrange(0, v@.len() as int) =~= v@);
    r
}

impl PlayWithScreenings {
    pub fn duplicate(&self) -> (r: PlayWithScreenings)
        ensures
            r.play == self.play,
            r.screenings@ == self.screenings@,
    {
        PlayWithScreenings { play: self.play.duplicate(), screenings: duplicate_screenings(&self.screenings) }
    }

    /// The show and its screenings as written to the store. The screenings
    /// carry `play_id`, the id the store gave the show.
    pub fn as_new(&self, play_id: i32) -> (r: NewPlayWithScreenings<'_>)
        ensures
            r.play.url@ == self.play.url@,
            r.play.name@ == self.play.name@,
            r.play.description@ == self.play.description@,
            r.play.image_url@ == self.play.image_url@,
            r.play.meta_info@ == self.play.meta_info@,
            r.screenings@.len() == self.screenings@.len(),
            forall|i: int|
                0 <= i < r.screenings@.len() ==> {
                    let n = #[trigger] r.screenings@[i];
                    let s = self.screenings@[i];
                    &&& n.play_id == play_id
                    &&& n.webid@ == s.webid@
                    &&& n.location@ == s.location@
                    &&& n.url@ == s.url@
                    &&& n.start_time == s.start_time
                    &&& n.ticket_url@ == s.ticket_url@
                },
    {
        let mut screenings: Vec<NewScreening<'_>> = Vec::new();
        let mut i: usize = 0;
        while i < self.screenings.len()
            invariant
                i <= self.screenings@.len(),
                screenings@.len() == i,
                forall|k: int|
                    0 <= k < i ==> {
                        let n = #[trigger] screenings@[k];
                        let s = self.screenings@[k];
                        &&& n.play_id == play_id
                        &&& n.webid@ == s.webid@
                        &&& n.location@ == s.location@
                        &&& n.url@ == s.url@
                        &&& n.start_time == s.start_time
                        &&& n.ticket_url@ == s.ticket_url@
                    },
            decreases self.screenings@.len() - i,
        {
            screenings.push(self.screenings[i].as_new(play_id));
            i += 1;
        }
        NewPlayWithScreenings { play: self.play.as_new(), screenings }
    }
}

} // verus!
