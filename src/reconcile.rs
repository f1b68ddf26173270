//! Reconciliation of one chat: each show gets one discussion thread with an
//! up-to-date pinned summary.
//!
//! The work alternates calls to the chat platform and the store with
//! decisions, so it is written as a state machine. `Reconciliation::new`
//! hands out the first command; the caller carries it out and reports the
//! outcome to `advance`, which hands out the next one, until `Done`.
//! A failure for one show is recorded and the machine moves on to the next
//! show; nothing already done is undone.

use crate::message::{body_hash, message_hash, pinned_message, pinned_text};
use crate::models::{PlayAndTopic, Topic};
use crate::text::{join_with, joined, views};
use vstd::prelude::*;

verus! {

/// What the machine waits for.
#[derive(Debug, Clone, Copy, PartialEq, Eq, Structural)]
pub enum Stage {
    /// A new thread for the current show.
    AwaitThread,
    /// The old pinned message to be deleted.
    AwaitDelete,
    /// The new pinned message to be sent.
    AwaitSend,
    /// The topic to be saved.
    AwaitSave,
    /// Nothing: every show was handled.
    Finished,
}

/// What the caller is to do next.
#[derive(Debug)]
pub enum Command {
    /// Open a discussion thread with this title (the icon is the caller's choice).
    CreateThread { title: String },
    /// Delete this message of the chat.
    DeleteMessage { message_id: i32 },
    /// Send this body (MarkdownV2) into the thread.
    SendMessage { thread_id: i32, body: String },
    /// Upsert this topic, keyed by chat and thread.
    SaveTopic { topic: Topic },
    /// Reconciliation is over, with this result.
    Done { result: Result<(), String> },
}

/// The outcome of the last command.
#[derive(Debug)]
pub enum Event {
    ThreadCreated { thread_id: i32 },
    Deleted,
    /// The message to delete was gone already.
    AlreadyDeleted,
    Sent { message_id: i32 },
    Saved,
    Failed { reason: String },
}

/// A command, as the specifications see it.
pub ghost enum Step {
    CreateThread(Seq<char>),
    DeleteMessage(i32),
    SendMessage(i32, Seq<char>),
    SaveTopic(Topic),
    /// `None` for success, else the combined error.
    Done(Option<Seq<char>>),
}

impl Command {
    pub open spec fn view(&self) -> Step {
        match self {
            Command::CreateThread { title } => Step::CreateThread(title@),
            Command::DeleteMessage { message_id } => Step::DeleteMessage(*message_id),
            Command::SendMessage { thread_id, body } => Step::SendMessage(*thread_id, body@),
            Command::SaveTopic { topic } => Step::SaveTopic(*topic),
            Command::Done { result } => Step::Done(
                match result {
                    Ok(_) => None,
                    Err(e) => Some(e@),
                },
            ),
        }
    }
}

/// What a reconciliation is given and keeps unchanged.
pub ghost struct Setup {
    pub chat_id: i64,
    pub force: bool,
    pub now: i64,
    pub shows: Seq<PlayAndTopic>,
}

/// Where a reconciliation stands.
pub ghost struct Progress {
    /// The show being handled.
    pub index: int,
    pub stage: Stage,
    pub thread_id: i32,
    pub pinned_message_id: i32,
    /// One entry per failed show, in order.
    pub errors: Seq<Seq<char>>,
}

/// The pinned summary of show `i`.
pub open spec fn body_of(st: Setup, i: int) -> Seq<char> {
    pinned_text(st.shows[i].play.play, st.shows[i].play.screenings@, st.now)
}

/// Whether the summary of show `i` is to be sent again: when forced, when
/// the show has no topic yet, when its topic holds no hash (0: nothing was
/// sent), or when the stored hash differs from the hash of the current
/// summary.
pub open spec fn regenerate(st: Setup, i: int) -> bool {
    match st.shows[i].topic {
        None => true,
        Some(t) => st.force || t.pinned_message_hash == 0 || t.pinned_message_hash as u64 != body_hash(
            body_of(st, i),
        ),
    }
}

/// The pinned message of show `i` before this run, 0 for none.
pub open spec fn prior_pinned(st: Setup, i: int) -> i32 {
    match st.shows[i].topic {
        None => 0,
        Some(t) => t.pinned_message_id,
    }
}

/// The topic saved for show `i` in `thread` with pinned message `pinned`.
pub open spec fn saved_topic(st: Setup, i: int, thread: i32, pinned: i32) -> Topic {
    Topic {
        message_thread_id: thread,
        chat_id: st.chat_id,
        play_id: st.shows[i].play.play.id,
        last_updated: st.now,
        pinned_message_id: pinned,
        pinned_message_hash: body_hash(body_of(st, i)) as i64,
    }
}

/// The combined error of a run, none when nothing failed.
pub open spec fn outcome(errors: Seq<Seq<char>>) -> Option<Seq<char>> {
    if errors.len() == 0 {
        None
    } else {
        Some("Errors refreshing topics: "@ + joined(errors, ", "@))
    }
}

/// The entry recorded when the command awaited in `stage` failed for show `i`.
pub open spec fn failure_text(st: Setup, i: int, stage: Stage, reason: Seq<char>) -> Seq<char> {
    let name = st.shows[i].play.play.name@;
    match stage {
        Stage::AwaitThread => "Error creating topic for play '"@ + name + "': "@ + reason,
        Stage::AwaitDelete => "Error deleting pinned message for play '"@ + name + "': "@ + reason,
        Stage::AwaitSend => "Error sending play info for play '"@ + name + "': "@ + reason,
        _ => "Error saving topic for play '"@ + name + "' in database: "@ + reason,
    }
}

/// Show `i` once its thread is known.
pub open spec fn prepared(st: Setup, i: int, thread: i32, errors: Seq<Seq<char>>) -> (Progress, Step) {
    let pinned = prior_pinned(st, i);
    if regenerate(st, i) {
        if pinned != 0 {
            (
                Progress { index: i, stage: Stage::AwaitDelete, thread_id: thread, pinned_message_id: pinned, errors },
                Step::DeleteMessage(pinned),
            )
        } else {
            (
                Progress { index: i, stage: Stage::AwaitSend, thread_id: thread, pinned_message_id: pinned, errors },
                Step::SendMessage(thread, body_of(st, i)),
            )
        }
    } else {
        (
            Progress { index: i, stage: Stage::AwaitSave, thread_id: thread, pinned_message_id: pinned, errors },
            Step::SaveTopic(saved_topic(st, i, thread, pinned)),
        )
    }
}

/// The start of show `i`, or the end of the run after the last show.
pub open spec fn entered(st: Setup, i: int, errors: Seq<Seq<char>>) -> (Progress, Step) {
    if i >= st.shows.len() {
        (
            Progress { index: st.shows.len() as int, stage: Stage::Finished, thread_id: 0, pinned_message_id: 0, errors },
            Step::Done(outcome(errors)),
        )
    } else {
        match st.shows[i].topic {
            None => (
                Progress { index: i, stage: Stage::AwaitThread, thread_id: 0, pinned_message_id: 0, errors },
                Step::CreateThread(st.shows[i].play.play.name@),
            ),
            Some(t) => prepared(st, i, t.message_thread_id, errors),
        }
    }
}

/// Whether `e` can answer the command awaited in `stage`.
pub open spec fn accepts(stage: Stage, e: Event) -> bool {
    match (stage, e) {
        (Stage::Finished, _) => false,
        (_, Event::Failed { .. }) => true,
        (Stage::AwaitThread, Event::ThreadCreated { .. }) => true,
        (Stage::AwaitDelete, Event::Deleted) => true,
        (Stage::AwaitDelete, Event::AlreadyDeleted) => true,
        (Stage::AwaitSend, Event::Sent { .. }) => true,
        (Stage::AwaitSave, Event::Saved) => true,
        _ => false,
    }
}

/// The step after `p` on the outcome `e`.
pub open spec fn next(st: Setup, p: Progress, e: Event) -> (Progress, Step) {
    let i = p.index;
    match e {
        Event::Failed { reason } => entered(st, i + 1, p.errors.push(failure_text(st, i, p.stage, reason@))),
        Event::ThreadCreated { thread_id } => prepared(st, i, thread_id, p.errors),
        Event::Deleted | Event::AlreadyDeleted => (
            Progress { stage: Stage::AwaitSend, ..p },
            Step::SendMessage(p.thread_id, body_of(st, i)),
        ),
        Event::Sent { message_id } => (
            Progress { stage: Stage::AwaitSave, pinned_message_id: message_id, ..p },
            Step::SaveTopic(saved_topic(st, i, p.thread_id, message_id)),
        ),
        _ => entered(st, i + 1, p.errors),
    }
}

/// The reconciliation of one chat.
pub struct Reconciliation {
    pub chat_id: i64,
    pub force: bool,
    pub now: i64,
    pub shows: Vec<PlayAndTopic>,
    pub index: usize,
    pub stage: Stage,
    pub thread_id: i32,
    pub pinned_message_id: i32,
    /// Summary of the current show.
    pub body: String,
    pub hash: u64,
    pub errors: Vec<String>,
}

impl Reconciliation {
    pub open spec fn setup(&self) -> Setup {
        Setup { chat_id: self.chat_id, force: self.force, now: self.now, shows: self.shows@ }
    }

    pub open spec fn progress(&self) -> Progress {
        Progress {
            index: self.index as int,
            stage: self.stage,
            thread_id: self.thread_id,
            pinned_message_id: self.pinned_message_id,
            errors: views(self.errors@),
        }
    }

    pub open spec fn wf(&self) -> bool {
        &&& self.index <= self.shows@.len()
        &&& (self.stage == Stage::Finished <==> self.index == self.shows@.len())
        &&& self.stage != Stage::Finished ==> {
            &&& self.body@ == body_of(self.setup(), self.index as int)
            &&& self.hash == body_hash(self.body@)
        }
    }

    /// Starts reconciling the chat `chat_id` at time `now` over `shows`, each
    /// with its screenings and its topic in this chat. With `force` every
    /// summary is sent again.
    pub fn new(chat_id: i64, force: bool, now: i64, shows: Vec<PlayAndTopic>) -> (r: (Reconciliation, Command))
        ensures
            r.0.wf(),
            r.0.setup() == (Setup { chat_id, force, now, shows: shows@ }),
            (r.0.progress(), r.1.view()) == entered(r.0.setup(), 0, Seq::empty()),
    {
        let mut rec = Reconciliation {
            chat_id,
            force,
            now,
            shows,
            index: 0,
            stage: Stage::Finished,
            thread_id: 0,
            pinned_message_id: 0,
            body: String::new(),
            hash: 0,
            errors: Vec::new(),
        };
        assert(views(rec.errors@) =~= Seq::empty());
        let c = rec.enter(0);
        (rec, c)
    }

    /// Whether `event` can answer the command last handed out.
    pub fn accepts(&self, event: &Event) -> (r: bool)
        ensures
            r == accepts(self.stage, *event),
    {
        match (self.stage, event) {
            (Stage::Finished, _) => false,
            (_, Event::Failed { .. }) => true,
            (Stage::AwaitThread, Event::ThreadCreated { .. }) => true,
            (Stage::AwaitDelete, Event::Deleted) => true,
            (Stage::AwaitDelete, Event::AlreadyDeleted) => true,
            (Stage::AwaitSend, Event::Sent { .. }) => true,
                (Stage::AwaitSave, Event::Saved) => true,
            _ => false,
        }
    }

    /// Takes the outcome of the last command and hands out the next one.
    pub fn advance(&mut self, event: Event) -> (c: Command)
        requires
            old(self).wf(),
            accepts(old(self).stage, event),
        ensures
            final(self).wf(),
            final(self).setup() == old(self).setup(),
            (final(self).progress(), c.view()) == next(old(self).setup(), old(self).progress(), event),
    {
        let n = self.shows.len();
        assert(self.index < n);
        match event {
            Event::Failed { reason } => {
                let entry = self.failure_entry(reason);
                let ghost before = self.errors@;
                self.errors.push(entry);
                assert(views(self.errors@) =~= views(before).push(entry@));
                self.enter(self.index + 1)
            },
            Event::ThreadCreated { thread_id } => self.prepare(thread_id),
            Event::Deleted | Event::AlreadyDeleted => {
                self.stage = Stage::AwaitSend;
                Command::SendMessage { thread_id: self.thread_id, body: self.body.clone() }
            },
            Event::Sent { message_id } => {
                self.stage = Stage::AwaitSave;
                self.pinned_message_id = message_id;
                Command::SaveTopic { topic: self.topic() }
            },
            _ => self.enter(self.index + 1),
        }
    }

    /// The topic to save for the current show.
    fn topic(&self) -> (t: Topic)
        requires
            self.wf(),
            self.stage != Stage::Finished,
        ensures
            t == saved_topic(self.setup(), self.index as int, self.thread_id, self.pinned_message_id),
    {
        Topic {
            message_thread_id: self.thread_id,
            chat_id: self.chat_id,
            play_id: self.shows[self.index].play.play.id,
            last_updated: self.now,
            pinned_message_id: self.pinned_message_id,
            pinned_message_hash: self.hash as i64,
        }
    }

    /// The entry recorded when the awaited command failed for the current show.
    fn failure_entry(&self, reason: String) -> (r: String)
        requires
            self.wf(),
            self.stage != Stage::Finished,
        ensures
            r@ == failure_text(self.setup(), self.index as int, self.stage, reason@),
    {
        let name = self.shows[self.index].play.play.name.as_str();
        let mut m = String::new();
        match self.stage {
            Stage::AwaitThread => m.append("Error creating topic for play '"),
            Stage::AwaitDelete => m.append("Error deleting pinned message for play '"),
            Stage::AwaitSend => m.append("Error sending play info for play '"),
            _ => m.append("Error saving topic for play '"),
        }
        m.append(name);
        match self.stage {
            Stage::AwaitThread | Stage::AwaitDelete | Stage::AwaitSend => m.append("': "),
            _ => m.append("' in database: "),
        }
        m.append(reason.as_str());
        m
    }

    /// Goes to show `i`, or ends the run after the last show.
    fn enter(&mut self, i: usize) -> (c: Command)
        requires
            i <= old(self).shows@.len(),
        ensures
            final(self).wf(),
            final(self).setup() == old(self).setup(),
            (final(self).progress(), c.view()) == entered(old(self).setup(), i as int, views(old(self).errors@)),
    {
        self.index = i;
        if i >= self.shows.len() {
            self.stage = Stage::Finished;
            self.thread_id = 0;
            self.pinned_message_id = 0;
            let result = if self.errors.len() == 0 {
                Ok(())
            } else {
                let mut m = String::from_str("Errors refreshing topics: ");
                let all = join_with(&self.errors, ", ");
                m.append(all.as_str());
                Err(m)
            };
            return Command::Done { result };
        }
        let show = &self.shows[i];
        self.body = pinned_message(&show.play.play, &show.play.screenings, self.now);
        self.hash = message_hash(self.body.as_str());
        match show.topic {
            None => {
                self.stage = Stage::AwaitThread;
                self.thread_id = 0;
                self.pinned_message_id = 0;
                Command::CreateThread { title: show.play.play.name.clone() }
            },
            Some(t) => {
                self.stage = Stage::AwaitSave;
                self.prepare(t.message_thread_id)
            },
        }
    }

    /// Goes on with the current show in `thread`.
    fn prepare(&mut self, thread: i32) -> (c: Command)
        requires
            old(self).wf(),
            old(self).stage != Stage::Finished,
        ensures
            final(self).wf(),
            final(self).setup() == old(self).setup(),
            (final(self).progress(), c.view()) == prepared(
                old(self).setup(),
                old(self).index as int,
                thread,
                views(old(self).errors@),
            ),
    {
        let show = &self.shows[self.index];
        let (regen, pinned) = match show.topic {
            None => (true, 0i32),
            Some(t) => (
                self.force || t.pinned_message_hash == 0 || t.pinned_message_hash as u64 != self.hash,
                t.pinned_message_id,
            ),
        };
        self.thread_id = thread;
        self.pinned_message_id = pinned;
        if regen {
            if pinned != 0 {
                self.stage = Stage::AwaitDelete;
                Command::DeleteMessage { message_id: pinned }
            } else {
                self.stage = Stage::AwaitSend;
                Command::SendMessage { thread_id: thread, body: self.body.clone() }
            }
        } else {
            self.stage = Stage::AwaitSave;
            Command::SaveTopic { topic: self.topic() }
        }
    }
}

/// The state and last command after the outcomes `events`, from the start.
pub open spec fn run(st: Setup, events: Seq<Event>) -> (Progress, Step)
    decreases events.len(),
{
    if events.len() == 0 {
        entered(st, 0, Seq::empty())
    } else {
        next(st, run(st, events.drop_last()).0, events.last())
    }
}

/// Whether every outcome in `events` answers the command it follows.
pub open spec fn accepted_run(st: Setup, events: Seq<Event>) -> bool
    decreases events.len(),
{
    events.len() == 0 || (accepted_run(st, events.drop_last()) && accepts(
        run(st, events.drop_last()).0.stage,
        events.last(),
    ))
}

/// How many of `events` are failures.
pub open spec fn failure_count(events: Seq<Event>) -> nat
    decreases events.len(),
{
    if events.len() == 0 {
        0
    } else {
        failure_count(events.drop_last()) + if events.last() is Failed {
            1nat
        } else {
            0nat
        }
    }
}

/// How many of `events` report a saved topic.
pub open spec fn saved_count(events: Seq<Event>) -> nat
    decreases events.len(),
{
    if events.len() == 0 {
        0
    } else {
        saved_count(events.drop_last()) + if events.last() is Saved {
            1nat
        } else {
            0nat
        }
    }
}

/// The error list of a run has one entry per failure, and no other; every
/// show that the run has left behind either failed once or had its topic
/// saved once.
pub proof fn lemma_errors_are_the_failures(st: Setup, events: Seq<Event>)
    requires
        accepted_run(st, events),
    ensures
        run(st, events).0.errors.len() == failure_count(events),
        0 <= run(st, events).0.index <= st.shows.len(),
        run(st, events).0.index == failure_count(events) + saved_count(events),
        run(st, events).0.stage == Stage::Finished <==> run(st, events).0.index == st.shows.len(),
        run(st, events).0.stage == Stage::Finished ==> run(st, events).1 == Step::Done(
            outcome(run(st, events).0.errors),
        ),
    decreases events.len(),
{
    if events.len() > 0 {
        lemma_errors_are_the_failures(st, events.drop_last());
    }
}

/// A run that finishes with success has saved the topic of every show,
/// and one that finishes with an error lists exactly its failures.
pub proof fn lemma_success_saves_every_show(st: Setup, events: Seq<Event>)
    requires
        accepted_run(st, events),
        run(st, events).1 is Done,
    ensures
        run(st, events).1 == Step::Done(None) ==> saved_count(events) == st.shows.len()
            && failure_count(events) == 0,
        run(st, events).1 == Step::Done(outcome(run(st, events).0.errors)),
        run(st, events).0.errors.len() == failure_count(events),
{
    lemma_errors_are_the_failures(st, events);
    lemma_done_is_finished(st, events);
}

proof fn lemma_done_is_finished(st: Setup, events: Seq<Event>)
    requires
        accepted_run(st, events),
        run(st, events).1 is Done,
    ensures
        run(st, events).0.stage == Stage::Finished,
    decreases events.len(),
{
    if events.len() > 0 {
        lemma_errors_are_the_failures(st, events.drop_last());
    }
}

/// A failure for one show is recorded once, naming that show and the call
/// that failed, and the run goes on with the next show exactly as it would
/// have without the failure: only the error list differs.
pub proof fn lemma_failure_isolated(st: Setup, p: Progress, reason: String)
    requires
        0 <= p.index < st.shows.len(),
        p.stage != Stage::Finished,
    ensures
        ({
            let (q, c) = next(st, p, Event::Failed { reason });
            let (q0, c0) = entered(st, p.index + 1, p.errors);
            &&& q.errors == p.errors.push(failure_text(st, p.index, p.stage, reason@))
            &&& q.index == p.index + 1
            &&& q.stage == q0.stage
            &&& q.thread_id == q0.thread_id
            &&& q.pinned_message_id == q0.pinned_message_id
            &&& (p.index + 1 < st.shows.len() ==> c == c0)
            &&& (p.index + 1 == st.shows.len() ==> c == Step::Done(outcome(q.errors)))
        }),
{
}

/// Unless forced, a show whose topic holds the hash of its current summary
/// needs no call to the chat platform: its first command saves the topic
/// again with the same thread and pinned message.
pub proof fn lemma_current_topic_sends_nothing(st: Setup, i: int, errors: Seq<Seq<char>>)
    requires
        0 <= i < st.shows.len(),
        !st.force,
        st.shows[i].topic is Some,
        st.shows[i].topic->Some_0.pinned_message_hash != 0,
        st.shows[i].topic->Some_0.pinned_message_hash as u64 == body_hash(body_of(st, i)),
    ensures
        entered(st, i, errors).1 == Step::SaveTopic(
            saved_topic(
                st,
                i,
                st.shows[i].topic->Some_0.message_thread_id,
                st.shows[i].topic->Some_0.pinned_message_id,
            ),
        ),
{
}

/// Reconciling twice on unchanged data: what the first run saves for a
/// show makes the second run, unless forced, save the same thread, pinned
/// message and hash, and send or delete nothing for it.
pub proof fn lemma_second_run_sends_nothing(
    first: Setup,
    second: Setup,
    i: int,
    thread: i32,
    pinned: i32,
    errors: Seq<Seq<char>>,
)
    requires
        0 <= i < first.shows.len(),
        0 <= i < second.shows.len(),
        !second.force,
        second.chat_id == first.chat_id,
        second.shows[i].play.play.id == first.shows[i].play.play.id,
        body_of(second, i) == body_of(first, i),
        body_hash(body_of(first, i)) != 0,
        second.shows[i].topic == Some(saved_topic(first, i, thread, pinned)),
    ensures
        entered(second, i, errors).1 == Step::SaveTopic(saved_topic(second, i, thread, pinned)),
        saved_topic(second, i, thread, pinned).pinned_message_hash == saved_topic(
            first,
            i,
            thread,
            pinned,
        ).pinned_message_hash,
{
    let h = body_hash(body_of(first, i));
    assert((h as i64) as u64 == h) by (bit_vector);
    assert(h != 0 ==> h as i64 != 0) by (bit_vector);
}

/// With `force` every summary is sent again: a show without a topic gets a
/// new thread, a show with a pinned message has it deleted first, and a
/// show with a topic but no pinned message has its summary sent into its
/// thread at once; no show starts with a bare save.
pub proof fn lemma_force_regenerates(st: Setup, i: int, errors: Seq<Seq<char>>)
    requires
        st.force,
        0 <= i < st.shows.len(),
    ensures
        !(entered(st, i, errors).1 is SaveTopic),
        st.shows[i].topic is None ==> entered(st, i, errors).1 == Step::CreateThread(
            st.shows[i].play.play.name@,
        ),
        st.shows[i].topic is Some && st.shows[i].topic->Some_0.pinned_message_id != 0 ==> entered(
            st,
            i,
            errors,
        ).1 == Step::DeleteMessage(st.shows[i].topic->Some_0.pinned_message_id),
        st.shows[i].topic is Some && st.shows[i].topic->Some_0.pinned_message_id == 0 ==> entered(
            st,
            i,
            errors,
        ).1 == Step::SendMessage(st.shows[i].topic->Some_0.message_thread_id, body_of(st, i)),
{
}

/// After a deleted (or already gone) pinned message the summary is sent
/// into the same thread, and after a send the topic is saved with the id
/// the send returned.
pub proof fn lemma_delete_then_send_then_save(st: Setup, p: Progress, message_id: i32)
    requires
        0 <= p.index < st.shows.len(),
    ensures
        next(st, p, Event::Deleted).1 == Step::SendMessage(p.thread_id, body_of(st, p.index)),
        next(st, p, Event::AlreadyDeleted).1 == Step::SendMessage(p.thread_id, body_of(st, p.index)),
        next(st, p, Event::Sent { message_id }).1 == Step::SaveTopic(
            saved_topic(st, p.index, p.thread_id, message_id),
        ),
{
}

/// Whether, unforced, every show's topic already holds the (non-zero) hash
/// of its current summary.
pub open spec fn all_current(st: Setup) -> bool {
    &&& !st.force
    &&& forall|i: int|
        0 <= i < st.shows.len() ==> {
            &&& (#[trigger] st.shows[i]).topic is Some
            &&& st.shows[i].topic->Some_0.pinned_message_hash != 0
            &&& st.shows[i].topic->Some_0.pinned_message_hash as u64 == body_hash(body_of(st, i))
        }
}

/// When every topic is current, a whole run makes no call to the chat
/// platform: each command is a save of a topic, until the end.
pub proof fn lemma_current_run_sends_nothing(st: Setup, events: Seq<Event>)
    requires
        all_current(st),
        accepted_run(st, events),
    ensures
        run(st, events).1 is SaveTopic || run(st, events).1 is Done,
        run(st, events).1 is SaveTopic ==> run(st, events).0.stage == Stage::AwaitSave,
        run(st, events).1 is Done ==> run(st, events).0.stage == Stage::Finished,
        0 <= run(st, events).0.index <= st.shows.len(),
    decreases events.len(),
{
    if events.len() > 0 {
        lemma_current_run_sends_nothing(st, events.drop_last());
        let p = run(st, events.drop_last()).0;
        if p.index + 1 < st.shows.len() {
            assert(st.shows[p.index + 1].topic is Some);
        }
    } else if st.shows.len() > 0 {
        assert(st.shows[0].topic is Some);
    }
}

} // verus!
