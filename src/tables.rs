//! The store's show and screening tables and their upsert: a show is keyed
//! by its url, a screening by its calendar id; a write to an existing key
//! overwrites every field but the row id (last write wins), a write to a new
//! key adds a row. Row ids are positions counted from 1.
//!
//! This is a model of the database's tables held in memory: it states and
//! proves what the upserts mean (see `lemma_store_twice_is_store_once`).
//! The service itself writes to Postgres, whose `ON CONFLICT ... DO UPDATE`
//! upserts the model describes; nothing here checks the database.

use crate::error::SyncError;
use crate::models::{Play, PlayWithScreenings, Screening};
use vstd::prelude::*;

verus! {

/// Where the show with `url` stands (the last such row).
pub open spec fn url_index(ps: Seq<Play>, url: Seq<char>) -> Option<int>
    decreases ps.len(),
{
    if ps.len() == 0 {
        None
    } else if ps.last().url@ == url {
        Some(ps.len() - 1)
    } else {
        url_index(ps.drop_last(), url)
    }
}

/// Where the screening with calendar id `webid` stands (the last such row).
pub open spec fn webid_index(ss: Seq<Screening>, webid: Seq<char>) -> Option<int>
    decreases ss.len(),
{
    if ss.len() == 0 {
        None
    } else if ss.last().webid@ == webid {
        Some(ss.len() - 1)
    } else {
        webid_index(ss.drop_last(), webid)
    }
}

pub open spec fn unique_urls(ps: Seq<Play>) -> bool {
    forall|i: int, j: int| 0 <= i < j < ps.len() ==> ps[i].url@ != ps[j].url@
}

pub open spec fn unique_webids(ss: Seq<Screening>) -> bool {
    forall|i: int, j: int| 0 <= i < j < ss.len() ==> ss[i].webid@ != ss[j].webid@
}

/// Each show's row id is its position counted from 1.
pub open spec fn positional_play_ids(ps: Seq<Play>) -> bool {
    forall|i: int| 0 <= i < ps.len() ==> (#[trigger] ps[i]).id == i + 1
}

/// Each screening's row id is its position counted from 1.
pub open spec fn positional_screening_ids(ss: Seq<Screening>) -> bool {
    forall|i: int| 0 <= i < ss.len() ==> (#[trigger] ss[i]).id == i + 1
}

/// No two of the screenings share a calendar id.
pub open spec fn distinct_webids(ss: Seq<Screening>) -> bool {
    forall|i: int, j: int| 0 <= i < j < ss.len() ==> ss[i].webid@ != ss[j].webid@
}

/// The show row `p` at position `i`.
pub open spec fn play_row(p: Play, i: int) -> Play {
    Play { id: (i + 1) as i32, ..p }
}

/// The screening row `s` of the show `play_id` at position `i`.
pub open spec fn screening_row(s: Screening, play_id: i32, i: int) -> Screening {
    Screening { id: (i + 1) as i32, play_id, ..s }
}

/// The show table after writing `p`.
pub open spec fn upsert_play(ps: Seq<Play>, p: Play) -> Seq<Play> {
    match url_index(ps, p.url@) {
        Some(k) => ps.update(k, play_row(p, k)),
        None => ps.push(play_row(p, ps.len() as int)),
    }
}

/// The position of the show `p` after writing it.
pub open spec fn play_position(ps: Seq<Play>, p: Play) -> int {
    match url_index(ps, p.url@) {
        Some(k) => k,
        None => ps.len() as int,
    }
}

/// The screening table after writing `s` for the show `play_id`.
pub open spec fn upsert_screening(ss: Seq<Screening>, s: Screening, play_id: i32) -> Seq<Screening> {
    match webid_index(ss, s.webid@) {
        Some(k) => ss.update(k, screening_row(s, play_id, k)),
        None => ss.push(screening_row(s, play_id, ss.len() as int)),
    }
}

/// The screening table after writing each of `new`, in order.
pub open spec fn upsert_screenings(ss: Seq<Screening>, new: Seq<Screening>, play_id: i32) -> Seq<Screening>
    decreases new.len(),
{
    if new.len() == 0 {
        ss
    } else {
        upsert_screening(upsert_screenings(ss, new.drop_last(), play_id), new.last(), play_id)
    }
}

/// Each screening to write, with the row id of its show.
pub open spec fn tagged(new: Seq<Screening>, play_id: i32) -> Seq<(Screening, i32)> {
    new.map_values(|s: Screening| (s, play_id))
}

/// The screening table after each write in turn.
pub open spec fn apply_writes(ss: Seq<Screening>, w: Seq<(Screening, i32)>) -> Seq<Screening>
    decreases w.len(),
{
    if w.len() == 0 {
        ss
    } else {
        upsert_screening(apply_writes(ss, w.drop_last()), w.last().0, w.last().1)
    }
}

/// The last write of the calendar id `webid`.
pub open spec fn last_write(w: Seq<(Screening, i32)>, webid: Seq<char>) -> Option<(Screening, i32)>
    decreases w.len(),
{
    if w.len() == 0 {
        None
    } else if w.last().0.webid@ == webid {
        Some(w.last())
    } else {
        last_write(w.drop_last(), webid)
    }
}

/// The show table after writing the show of each of `shows` in turn.
pub open spec fn plays_after(ps: Seq<Play>, shows: Seq<PlayWithScreenings>) -> Seq<Play>
    decreases shows.len(),
{
    if shows.len() == 0 {
        ps
    } else {
        upsert_play(plays_after(ps, shows.drop_last()), shows.last().play)
    }
}

/// The screening writes of `shows`, each under the row id its show has
/// when it is written.
pub open spec fn writes_of(ps: Seq<Play>, shows: Seq<PlayWithScreenings>) -> Seq<(Screening, i32)>
    decreases shows.len(),
{
    if shows.len() == 0 {
        Seq::empty()
    } else {
        let before = plays_after(ps, shows.drop_last());
        writes_of(ps, shows.drop_last()) + tagged(
            shows.last().screenings@,
            (play_position(before, shows.last().play) + 1) as i32,
        )
    }
}

/// The tables after writing each of `shows` in turn, as
/// `Store::upsert_play_with_screenings` does.
pub open spec fn store_all(ps: Seq<Play>, ss: Seq<Screening>, shows: Seq<PlayWithScreenings>) -> (
    Seq<Play>,
    Seq<Screening>,
)
    decreases shows.len(),
{
    if shows.len() == 0 {
        (ps, ss)
    } else {
        let (p1, s1) = store_all(ps, ss, shows.drop_last());
        let k = play_position(p1, shows.last().play);
        (
            upsert_play(p1, shows.last().play),
            upsert_screenings(s1, shows.last().screenings@, (k + 1) as i32),
        )
    }
}

/// The last of `shows` whose show has `url`.
pub open spec fn last_play(shows: Seq<PlayWithScreenings>, url: Seq<char>) -> Option<Play>
    decreases shows.len(),
{
    if shows.len() == 0 {
        None
    } else if shows.last().play.url@ == url {
        Some(shows.last().play)
    } else {
        last_play(shows.drop_last(), url)
    }
}

/// The show and screening tables.
pub struct Store {
    pub plays: Vec<Play>,
    pub screenings: Vec<Screening>,
}

impl Store {
    /// Keys are unique and row ids fit.
    pub open spec fn wf(&self) -> bool {
        &&& unique_urls(self.plays@)
        &&& unique_webids(self.screenings@)
        &&& positional_play_ids(self.plays@)
        &&& positional_screening_ids(self.screenings@)
        &&& self.plays@.len() < i32::MAX
        &&& self.screenings@.len() < i32::MAX
    }

    /// Whether writing `p` keeps row ids in range.
    pub open spec fn fits(&self, p: PlayWithScreenings) -> bool {
        &&& self.plays@.len() + 1 < i32::MAX
        &&& self.screenings@.len() + p.screenings@.len() < i32::MAX
    }

    /// Empty tables.
    pub fn new() -> (r: Store)
        ensures
            r.wf(),
            r.plays@.len() == 0,
            r.screenings@.len() == 0,
    {
        Store { plays: Vec::new(), screenings: Vec::new() }
    }

    /// Writes a show and its screenings as one transaction: the show by its
    /// url, then each screening by its calendar id under the show's row id.
    /// Returns the show's row and, for each given screening, the row that
    /// now holds its calendar id. An existing show keeps its row id. Fails,
    /// changing nothing, only where row ids would run out.
    pub fn upsert_play_with_screenings(&mut self, p: &PlayWithScreenings) -> (r: Result<
        PlayWithScreenings,
        SyncError,
    >)
        requires
            old(self).wf(),
        ensures
            final(self).wf(),
            old(self).fits(*p) ==> {
                let k = play_position(old(self).plays@, p.play);
                let pid = (k + 1) as i32;
                let t = final(self).screenings@;
                &&& r is Ok
                &&& r->Ok_0.play == play_row(p.play, k)
                &&& r->Ok_0.play == final(self).plays@[k]
                &&& final(self).plays@ == upsert_play(old(self).plays@, p.play)
                &&& final(self).screenings@ == upsert_screenings(old(self).screenings@, p.screenings@, pid)
                &&& url_index(final(self).plays@, p.play.url@) == Some(k)
                &&& final(self).plays@.len() == old(self).plays@.len() + if url_index(
                    old(self).plays@,
                    p.play.url@,
                ) is None {
                    1int
                } else {
                    0int
                }
                &&& url_index(old(self).plays@, p.play.url@) matches Some(j) ==> r->Ok_0.play.id
                    == old(self).plays@[j].id
                &&& r->Ok_0.screenings@.len() == p.screenings@.len()
                &&& forall|i: int|
                    0 <= i < p.screenings@.len() ==> {
                        let w = (#[trigger] p.screenings@[i]).webid@;
                        &&& webid_index(t, w) is Some
                        &&& r->Ok_0.screenings@[i] == t[webid_index(t, w)->Some_0]
                        &&& t[webid_index(t, w)->Some_0] == screening_row(
                            last_write(tagged(p.screenings@, pid), w)->Some_0.0,
                            pid,
                            webid_index(t, w)->Some_0,
                        )
                        &&& distinct_webids(p.screenings@) ==> t[webid_index(t, w)->Some_0]
                            == screening_row(p.screenings@[i], pid, webid_index(t, w)->Some_0)
                    }
            },
            !old(self).fits(*p) ==> {
                &&& r matches Err(SyncError::Store(_))
                &&& final(self).plays@ == old(self).plays@
                &&& final(self).screenings@ == old(self).screenings@
            },
    {
        if self.plays.len() >= (i32::MAX - 1) as usize || p.screenings.len() >= (i32::MAX as usize)
            - self.screenings.len() {
            return Err(SyncError::Store(String::from_str("row ids exhausted")));
        }
        let row_id = self.write_rows(p);
        let ghost new = p.screenings@;
        let ghost w = tagged(new, row_id);
        proof {
            lemma_upsert_screenings_is_apply(old(self).screenings@, new, row_id);
            lemma_apply_writes_rows(old(self).screenings@, w);
            lemma_url_index_found(old(self).plays@, p.play.url@);
            lemma_unique_url_index(self.plays@, row_id - 1);
        }
        let mut written: Vec<Screening> = Vec::new();
        let mut i: usize = 0;
        while i < p.screenings.len()
            invariant
                i <= new.len(),
                new == p.screenings@,
                w == tagged(new, row_id),
                self.screenings@ == apply_writes(old(self).screenings@, w),
                forall|key: Seq<char>| #[trigger]
                    last_write(w, key) is Some ==> webid_index(self.screenings@, key) is Some,
                written@.len() == i,
                forall|m: int|
                    0 <= m < i ==> {
                        let key = (#[trigger] new[m]).webid@;
                        &&& webid_index(self.screenings@, key) is Some
                        &&& written@[m] == self.screenings@[webid_index(self.screenings@, key)->Some_0]
                    },
            decreases new.len() - i,
        {
            proof {
                lemma_last_write_tagged(new, row_id, i as int);
            }
            let found = self.screening_index(p.screenings[i].webid.as_str());
            proof {
                lemma_webid_index_found(self.screenings@, new[i as int].webid@);
            }
            if let Some(j) = found {
                written.push(self.screenings[j].duplicate());
            }
            i += 1;
        }
        proof {
            let t = self.screenings@;
            assert forall|i: int| 0 <= i < new.len() implies {
                let key = (#[trigger] new[i]).webid@;
                &&& t[webid_index(t, key)->Some_0] == screening_row(
                    last_write(w, key)->Some_0.0,
                    row_id,
                    webid_index(t, key)->Some_0,
                )
                &&& distinct_webids(new) ==> t[webid_index(t, key)->Some_0] == screening_row(
                    new[i],
                    row_id,
                    webid_index(t, key)->Some_0,
                )
            } by {
                let key = new[i].webid@;
                lemma_last_write_tagged(new, row_id, i);
                lemma_webid_index_found(t, key);
                let j = webid_index(t, key)->Some_0;
                assert(t[j].webid@ == key);
            }
        }
        let play = self.plays[(row_id - 1) as usize].duplicate();
        Ok(PlayWithScreenings { play, screenings: written })
    }

    /// Writes the rows of `p` and returns the show's row id.
    fn write_rows(&mut self, p: &PlayWithScreenings) -> (pid: i32)
        requires
            old(self).wf(),
            old(self).fits(*p),
        ensures
            final(self).wf(),
            pid == play_position(old(self).plays@, p.play) + 1,
            0 <= pid - 1 < final(self).plays@.len(),
            final(self).plays@[pid - 1] == play_row(p.play, pid - 1),
            final(self).plays@ == upsert_play(old(self).plays@, p.play),
            final(self).screenings@ == upsert_screenings(old(self).screenings@, p.screenings@, pid),
    {
        let k = self.play_index(p.play.url.as_str());
        proof {
            lemma_url_index_found(self.plays@, p.play.url@);
        }
        let row_id = match k {
            Some(k) => {
                let row = Play { id: (k + 1) as i32, ..p.play.duplicate() };
                self.plays[k] = row;
                proof {
                    lemma_update_keeps_urls_unique(old(self).plays@, k as int, row);
                }
                (k + 1) as i32
            },
            None => {
                let n = self.plays.len();
                let row = Play { id: (n + 1) as i32, ..p.play.duplicate() };
                self.plays.push(row);
                proof {
                    lemma_push_keeps_urls_unique(old(self).plays@, row);
                }
                (n + 1) as i32
            },
        };
        assert(self.plays@ =~= upsert_play(old(self).plays@, p.play));
        assert(self.plays@[row_id - 1] == play_row(p.play, row_id - 1));
        assert(positional_play_ids(self.plays@));
        let mut i: usize = 0;
        while i < p.screenings.len()
            invariant
                i <= p.screenings@.len(),
                old(self).screenings@.len() + p.screenings@.len() < i32::MAX,
                self.screenings@.len() <= old(self).screenings@.len() + i,
                unique_webids(self.screenings@),
                positional_screening_ids(self.screenings@),
                unique_urls(self.plays@),
                positional_play_ids(self.plays@),
                self.plays@ == upsert_play(old(self).plays@, p.play),
                self.plays@.len() <= old(self).plays@.len() + 1,
                old(self).plays@.len() + 1 < i32::MAX,
                row_id == play_position(old(self).plays@, p.play) + 1,
                0 <= row_id - 1 < self.plays@.len(),
                self.plays@[row_id - 1] == play_row(p.play, row_id - 1),
                self.screenings@ == upsert_screenings(
                    old(self).screenings@,
                    p.screenings@.subrange(0, i as int),
                    row_id,
                ),
            decreases p.screenings@.len() - i,
        {
            assert(p.screenings@.subrange(0, i + 1).drop_last() =~= p.screenings@.subrange(0, i as int));
            self.upsert_screening(&p.screenings[i], row_id);
            i += 1;
        }
        assert(p.screenings@.subrange(0, p.screenings@.len() as int) =~= p.screenings@);
        row_id
    }

    fn play_index(&self, url: &str) -> (r: Option<usize>)
        ensures
            r matches Some(k) ==> url_index(self.plays@, url@) == Some(k as int),
            r is None ==> url_index(self.plays@, url@) is None,
    {
        let mut found: Option<usize> = None;
        let mut i: usize = 0;
        while i < self.plays.len()
            invariant
                i <= self.plays@.len(),
                found matches Some(k) ==> url_index(self.plays@.subrange(0, i as int), url@) == Some(
                    k as int,
                ),
                found is None ==> url_index(self.plays@.subrange(0, i as int), url@) is None,
            decreases self.plays@.len() - i,
        {
            assert(self.plays@.subrange(0, i + 1).drop_last() =~= self.plays@.subrange(0, i as int));
            if crate::text::same_text(self.plays[i].url.as_str(), url) {
                found = Some(i);
            }
            i += 1;
        }
        assert(self.plays@.subrange(0, self.plays@.len() as int) =~= self.plays@);
        found
    }

    fn screening_index(&self, webid: &str) -> (r: Option<usize>)
        ensures
            r matches Some(k) ==> webid_index(self.screenings@, webid@) == Some(k as int),
            r is None ==> webid_index(self.screenings@, webid@) is None,
    {
        let mut found: Option<usize> = None;
        let mut i: usize = 0;
        while i < self.screenings.len()
            invariant
                i <= self.screenings@.len(),
                found matches Some(k) ==> webid_index(self.screenings@.subrange(0, i as int), webid@)
                    == Some(k as int),
                found is None ==> webid_index(self.screenings@.subrange(0, i as int), webid@) is None,
            decreases self.screenings@.len() - i,
        {
            assert(self.screenings@.subrange(0, i + 1).drop_last() =~= self.screenings@.subrange(
                0,
                i as int,
            ));
            if crate::text::same_text(self.screenings[i].webid.as_str(), webid) {
                found = Some(i);
            }
            i += 1;
        }
        assert(self.screenings@.subrange(0, self.screenings@.len() as int) =~= self.screenings@);
        found
    }

    fn upsert_screening(&mut self, s: &Screening, play_id: i32)
        requires
            unique_webids(old(self).screenings@),
            positional_screening_ids(old(self).screenings@),
            old(self).screenings@.len() + 1 < i32::MAX,
        ensures
            unique_webids(final(self).screenings@),
            positional_screening_ids(final(self).screenings@),
            final(self).plays == old(self).plays,
            final(self).screenings@ == upsert_screening(old(self).screenings@, *s, play_id),
            final(self).screenings@.len() <= old(self).screenings@.len() + 1,
    {
        let found = self.screening_index(s.webid.as_str());
        proof {
            lemma_webid_index_found(self.screenings@, s.webid@);
        }
        match found {
            Some(k) => {
                let row = Screening { id: (k + 1) as i32, play_id, ..s.duplicate() };
                self.screenings[k] = row;
                proof {
                    lemma_update_keeps_webids_unique(old(self).screenings@, k as int, row);
                }
            },
            None => {
                let n = self.screenings.len();
                let row = Screening { id: (n + 1) as i32, play_id, ..s.duplicate() };
                self.screenings.push(row);
                proof {
                    lemma_push_keeps_webids_unique(old(self).screenings@, row);
                }
            },
        }
        assert(self.screenings@ =~= upsert_screening(old(self).screenings@, *s, play_id));
        assert(positional_screening_ids(self.screenings@));
    }
}

proof fn lemma_url_index_found(ps: Seq<Play>, url: Seq<char>)
    ensures
        url_index(ps, url) matches Some(k) ==> 0 <= k < ps.len() && ps[k].url@ == url,
        url_index(ps, url) is None ==> forall|i: int| 0 <= i < ps.len() ==> ps[i].url@ != url,
    decreases ps.len(),
{
    if ps.len() > 0 {
        lemma_url_index_found(ps.drop_last(), url);
        if ps.last().url@ != url {
            assert forall|i: int| 0 <= i < ps.len() - 1 implies ps[i] == ps.drop_last()[i] by {}
        }
    }
}

proof fn lemma_webid_index_found(ss: Seq<Screening>, webid: Seq<char>)
    ensures
        webid_index(ss, webid) matches Some(k) ==> 0 <= k < ss.len() && ss[k].webid@ == webid,
        webid_index(ss, webid) is None ==> forall|i: int| 0 <= i < ss.len() ==> ss[i].webid@ != webid,
    decreases ss.len(),
{
    if ss.len() > 0 {
        lemma_webid_index_found(ss.drop_last(), webid);
        if ss.last().webid@ != webid {
            assert forall|i: int| 0 <= i < ss.len() - 1 implies ss[i] == ss.drop_last()[i] by {}
        }
    }
}

proof fn lemma_update_keeps_urls_unique(ps: Seq<Play>, k: int, row: Play)
    requires
        unique_urls(ps),
        0 <= k < ps.len(),
        row.url@ == ps[k].url@,
    ensures
        unique_urls(ps.update(k, row)),
{
}

proof fn lemma_push_keeps_urls_unique(ps: Seq<Play>, row: Play)
    requires
        unique_urls(ps),
        url_index(ps, row.url@) is None,
    ensures
        unique_urls(ps.push(row)),
{
    lemma_url_index_found(ps, row.url@);
}

proof fn lemma_update_keeps_webids_unique(ss: Seq<Screening>, k: int, row: Screening)
    requires
        unique_webids(ss),
        0 <= k < ss.len(),
        row.webid@ == ss[k].webid@,
    ensures
        unique_webids(ss.update(k, row)),
{
}

proof fn lemma_push_keeps_webids_unique(ss: Seq<Screening>, row: Screening)
    requires
        unique_webids(ss),
        webid_index(ss, row.webid@) is None,
    ensures
        unique_webids(ss.push(row)),
{
    lemma_webid_index_found(ss, row.webid@);
}

proof fn lemma_unique_url_index(ps: Seq<Play>, k: int)
    requires
        unique_urls(ps),
        0 <= k < ps.len(),
    ensures
        url_index(ps, ps[k].url@) == Some(k),
    decreases ps.len(),
{
    if k < ps.len() - 1 {
        assert(ps.drop_last()[k] == ps[k]);
        lemma_unique_url_index(ps.drop_last(), k);
    }
}

proof fn lemma_upsert_screenings_is_apply(ss: Seq<Screening>, new: Seq<Screening>, play_id: i32)
    ensures
        upsert_screenings(ss, new, play_id) == apply_writes(ss, tagged(new, play_id)),
    decreases new.len(),
{
    if new.len() > 0 {
        lemma_upsert_screenings_is_apply(ss, new.drop_last(), play_id);
        assert(tagged(new, play_id).drop_last() =~= tagged(new.drop_last(), play_id));
    }
}

proof fn lemma_apply_concat(ss: Seq<Screening>, a: Seq<(Screening, i32)>, b: Seq<(Screening, i32)>)
    ensures
        apply_writes(ss, a + b) == apply_writes(apply_writes(ss, a), b),
    decreases b.len(),
{
    if b.len() == 0 {
        assert(a + b =~= a);
    } else {
        assert((a + b).drop_last() =~= a + b.drop_last());
        lemma_apply_concat(ss, a, b.drop_last());
    }
}

proof fn lemma_store_all_split(ps: Seq<Play>, ss: Seq<Screening>, shows: Seq<PlayWithScreenings>)
    ensures
        store_all(ps, ss, shows) == (plays_after(ps, shows), apply_writes(ss, writes_of(ps, shows))),
    decreases shows.len(),
{
    if shows.len() > 0 {
        lemma_store_all_split(ps, ss, shows.drop_last());
        let before = plays_after(ps, shows.drop_last());
        let pid = (play_position(before, shows.last().play) + 1) as i32;
        lemma_upsert_screenings_is_apply(
            apply_writes(ss, writes_of(ps, shows.drop_last())),
            shows.last().screenings@,
            pid,
        );
        lemma_apply_concat(ss, writes_of(ps, shows.drop_last()), tagged(shows.last().screenings@, pid));
    }
}

/// What the writes `w` leave in the screening table `ss`: the rows keep
/// their places and keys, new keys are added after them, and each row whose
/// key was written holds the last write of that key.
proof fn lemma_apply_writes_rows(ss: Seq<Screening>, w: Seq<(Screening, i32)>)
    requires
        unique_webids(ss),
    ensures
        ({
            let t = apply_writes(ss, w);
            &&& unique_webids(t)
            &&& ss.len() <= t.len()
            &&& forall|i: int| 0 <= i < ss.len() ==> (#[trigger] t[i]).webid@ == ss[i].webid@
            &&& forall|i: int|
                0 <= i < t.len() ==> match last_write(w, (#[trigger] t[i]).webid@) {
                    Some(x) => t[i] == screening_row(x.0, x.1, i),
                    None => i < ss.len() && t[i] == ss[i],
                }
            &&& forall|key: Seq<char>| #[trigger]
                last_write(w, key) is Some ==> webid_index(t, key) is Some
        }),
    decreases w.len(),
{
    if w.len() > 0 {
        let prev = w.drop_last();
        let x = w.last();
        lemma_apply_writes_rows(ss, prev);
        let b = apply_writes(ss, prev);
        let t = apply_writes(ss, w);
        lemma_webid_index_found(b, x.0.webid@);
        match webid_index(b, x.0.webid@) {
            Some(k) => {
                lemma_update_keeps_webids_unique(b, k, screening_row(x.0, x.1, k));
                assert forall|i: int| 0 <= i < t.len() implies match last_write(w, (#[trigger] t[i]).webid@) {
                    Some(y) => t[i] == screening_row(y.0, y.1, i),
                    None => i < ss.len() && t[i] == ss[i],
                } by {
                    if i != k {
                        assert(b[i].webid@ != b[k].webid@);
                    }
                }
                assert forall|key: Seq<char>| #[trigger] last_write(w, key) is Some implies webid_index(
                    t,
                    key,
                ) is Some by {
                    lemma_webid_index_found(t, key);
                    if key != x.0.webid@ {
                        assert(last_write(prev, key) is Some);
                        lemma_webid_index_found(b, key);
                        let i = webid_index(b, key)->Some_0;
                        assert(t[i].webid@ == key);
                    } else {
                        assert(t[k].webid@ == key);
                    }
                }
            },
            None => {
                let row = screening_row(x.0, x.1, b.len() as int);
                lemma_push_keeps_webids_unique(b, row);
                assert forall|i: int| 0 <= i < t.len() implies match last_write(w, (#[trigger] t[i]).webid@) {
                    Some(y) => t[i] == screening_row(y.0, y.1, i),
                    None => i < ss.len() && t[i] == ss[i],
                } by {
                    if i < b.len() {
                        assert(t[i] == b[i]);
                        assert(b[i].webid@ != x.0.webid@);
                    }
                }
                assert forall|key: Seq<char>| #[trigger] last_write(w, key) is Some implies webid_index(
                    t,
                    key,
                ) is Some by {
                    lemma_webid_index_found(t, key);
                    if key != x.0.webid@ {
                        assert(last_write(prev, key) is Some);
                        lemma_webid_index_found(b, key);
                        let i = webid_index(b, key)->Some_0;
                        assert(t[i].webid@ == key);
                    } else {
                        assert(t[b.len() as int].webid@ == key);
                    }
                }
            },
        }
    }
}

proof fn lemma_apply_twice(ss: Seq<Screening>, w: Seq<(Screening, i32)>)
    requires
        unique_webids(ss),
    ensures
        apply_writes(apply_writes(ss, w), w) == apply_writes(ss, w),
{
    lemma_apply_writes_rows(ss, w);
    let s1 = apply_writes(ss, w);
    lemma_apply_writes_rows(s1, w);
    let s2 = apply_writes(s1, w);
    if s2.len() > s1.len() {
        let i = s1.len() as int;
        let key = s2[i].webid@;
        assert(last_write(w, key) is Some);
        lemma_webid_index_found(s1, key);
        let j = webid_index(s1, key)->Some_0;
        assert(s2[j].webid@ == key);
        assert(false);
    }
    assert forall|i: int| 0 <= i < s1.len() implies s2[i] == s1[i] by {
        assert(s2[i].webid@ == s1[i].webid@);
        match last_write(w, s1[i].webid@) {
            Some(x) => {
                assert(s1[i] == screening_row(x.0, x.1, i));
            },
            None => {},
        }
    }
    assert(s2 =~= s1);
}

/// What writing the shows of `shows` leaves in the show table `ps`, as
/// `lemma_apply_writes_rows` for screenings.
proof fn lemma_plays_after_rows(ps: Seq<Play>, shows: Seq<PlayWithScreenings>)
    requires
        unique_urls(ps),
    ensures
        ({
            let t = plays_after(ps, shows);
            &&& unique_urls(t)
            &&& ps.len() <= t.len()
            &&& forall|i: int| 0 <= i < ps.len() ==> (#[trigger] t[i]).url@ == ps[i].url@
            &&& forall|i: int|
                0 <= i < t.len() ==> match last_play(shows, (#[trigger] t[i]).url@) {
                    Some(p) => t[i] == play_row(p, i),
                    None => i < ps.len() && t[i] == ps[i],
                }
            &&& forall|url: Seq<char>| #[trigger] last_play(shows, url) is Some ==> url_index(t, url) is Some
        }),
    decreases shows.len(),
{
    if shows.len() > 0 {
        let prev = shows.drop_last();
        let p = shows.last().play;
        lemma_plays_after_rows(ps, prev);
        let b = plays_after(ps, prev);
        let t = plays_after(ps, shows);
        lemma_url_index_found(b, p.url@);
        match url_index(b, p.url@) {
            Some(k) => {
                lemma_update_keeps_urls_unique(b, k, play_row(p, k));
                assert forall|i: int| 0 <= i < t.len() implies match last_play(shows, (#[trigger] t[i]).url@) {
                    Some(q) => t[i] == play_row(q, i),
                    None => i < ps.len() && t[i] == ps[i],
                } by {
                    if i != k {
                        assert(b[i].url@ != b[k].url@);
                    }
                }
                assert forall|url: Seq<char>| #[trigger] last_play(shows, url) is Some implies url_index(
                    t,
                    url,
                ) is Some by {
                    lemma_url_index_found(t, url);
                    if url != p.url@ {
                        assert(last_play(prev, url) is Some);
                        lemma_url_index_found(b, url);
                        let i = url_index(b, url)->Some_0;
                        assert(t[i].url@ == url);
                    } else {
                        assert(t[k].url@ == url);
                    }
                }
            },
            None => {
                let row = play_row(p, b.len() as int);
                lemma_push_keeps_urls_unique(b, row);
                assert forall|i: int| 0 <= i < t.len() implies match last_play(shows, (#[trigger] t[i]).url@) {
                    Some(q) => t[i] == play_row(q, i),
                    None => i < ps.len() && t[i] == ps[i],
                } by {
                    if i < b.len() {
                        assert(t[i] == b[i]);
                        assert(b[i].url@ != p.url@);
                    }
                }
                assert forall|url: Seq<char>| #[trigger] last_play(shows, url) is Some implies url_index(
                    t,
                    url,
                ) is Some by {
                    lemma_url_index_found(t, url);
                    if url != p.url@ {
                        assert(last_play(prev, url) is Some);
                        lemma_url_index_found(b, url);
                        let i = url_index(b, url)->Some_0;
                        assert(t[i].url@ == url);
                    } else {
                        assert(t[b.len() as int].url@ == url);
                    }
                }
            },
        }
    }
}

proof fn lemma_plays_after_concat(ps: Seq<Play>, a: Seq<PlayWithScreenings>, b: Seq<PlayWithScreenings>)
    ensures
        plays_after(ps, a + b) == plays_after(plays_after(ps, a), b),
    decreases b.len(),
{
    if b.len() == 0 {
        assert(a + b =~= a);
    } else {
        assert((a + b).drop_last() =~= a + b.drop_last());
        lemma_plays_after_concat(ps, a, b.drop_last());
    }
}

/// A show's position when it is written is where its url stands once every
/// show is written.
proof fn lemma_position_stays(ps: Seq<Play>, shows: Seq<PlayWithScreenings>, m: int)
    requires
        unique_urls(ps),
        0 <= m < shows.len(),
    ensures
        url_index(plays_after(ps, shows), shows[m].play.url@) == Some(
            play_position(plays_after(ps, shows.subrange(0, m)), shows[m].play),
        ),
{
    let p = shows[m].play;
    let head = shows.subrange(0, m + 1);
    let tail = shows.subrange(m + 1, shows.len() as int);
    assert(head.drop_last() =~= shows.subrange(0, m));
    assert(head + tail =~= shows);
    let x = plays_after(ps, shows.subrange(0, m));
    let x1 = plays_after(ps, head);
    lemma_plays_after_rows(ps, shows.subrange(0, m));
    lemma_plays_after_rows(ps, head);
    lemma_url_index_found(x, p.url@);
    let pos = play_position(x, p);
    assert(x1[pos].url@ == p.url@);
    lemma_plays_after_concat(ps, head, tail);
    lemma_plays_after_rows(x1, tail);
    let f = plays_after(ps, shows);
    assert(f[pos].url@ == p.url@);
    lemma_unique_url_index(f, pos);
}

/// Writing again from tables that already hold a show's url puts the show
/// where the url stands.
proof fn lemma_position_in_written(f: Seq<Play>, shows: Seq<PlayWithScreenings>, m: int, pos: int)
    requires
        unique_urls(f),
        0 <= m < shows.len(),
        url_index(f, shows[m].play.url@) == Some(pos),
    ensures
        play_position(plays_after(f, shows.subrange(0, m)), shows[m].play) == pos,
{
    let y = plays_after(f, shows.subrange(0, m));
    lemma_url_index_found(f, shows[m].play.url@);
    lemma_plays_after_rows(f, shows.subrange(0, m));
    assert(y[pos].url@ == shows[m].play.url@);
    lemma_unique_url_index(y, pos);
}

proof fn lemma_same_writes(ps: Seq<Play>, shows: Seq<PlayWithScreenings>, k: int)
    requires
        unique_urls(ps),
        0 <= k <= shows.len(),
    ensures
        writes_of(plays_after(ps, shows), shows.subrange(0, k)) == writes_of(ps, shows.subrange(0, k)),
    decreases k,
{
    if k > 0 {
        let f = plays_after(ps, shows);
        lemma_plays_after_rows(ps, shows);
        lemma_same_writes(ps, shows, k - 1);
        let pre = shows.subrange(0, k);
        assert(pre.drop_last() =~= shows.subrange(0, k - 1));
        assert(pre.last() == shows[k - 1]);
        lemma_position_stays(ps, shows, k - 1);
        let pos = play_position(plays_after(ps, shows.subrange(0, k - 1)), shows[k - 1].play);
        lemma_position_in_written(f, shows, k - 1, pos);
    }
}

/// Writing the same shows with the same screenings a second time leaves the
/// tables as the first time: no show row and no screening row is added,
/// every row keeps its id and values, and urls and calendar ids stay unique.
pub proof fn lemma_store_twice_is_store_once(ps: Seq<Play>, ss: Seq<Screening>, shows: Seq<PlayWithScreenings>)
    requires
        unique_urls(ps),
        unique_webids(ss),
    ensures
        ({
            let (p1, s1) = store_all(ps, ss, shows);
            &&& store_all(p1, s1, shows) == (p1, s1)
            &&& unique_urls(p1)
            &&& unique_webids(s1)
        }),
{
    let f = plays_after(ps, shows);
    let w = writes_of(ps, shows);
    let s1 = apply_writes(ss, w);
    lemma_store_all_split(ps, ss, shows);
    lemma_store_all_split(f, s1, shows);
    lemma_plays_after_rows(ps, shows);
    lemma_apply_writes_rows(ss, w);
    // the second run writes the same screenings under the same show ids
    lemma_same_writes(ps, shows, shows.len() as int);
    assert(shows.subrange(0, shows.len() as int) =~= shows);
    lemma_apply_twice(ss, w);
    // and leaves the show table as it is
    lemma_plays_after_rows(f, shows);
    let g = plays_after(f, shows);
    if g.len() > f.len() {
        let i = f.len() as int;
        let url = g[i].url@;
        assert(last_play(shows, url) is Some);
        lemma_url_index_found(f, url);
        let j = url_index(f, url)->Some_0;
        assert(g[j].url@ == url);
        assert(false);
    }
    assert forall|i: int| 0 <= i < f.len() implies g[i] == f[i] by {
        assert(g[i].url@ == f[i].url@);
        match last_play(shows, f[i].url@) {
            Some(p) => {
                assert(f[i] == play_row(p, i));
            },
            None => {},
        }
    }
    assert(g =~= f);
}

proof fn lemma_last_write_tagged(new: Seq<Screening>, play_id: i32, i: int)
    requires
        0 <= i < new.len(),
    ensures
        last_write(tagged(new, play_id), new[i].webid@) is Some,
        last_write(tagged(new, play_id), new[i].webid@)->Some_0.0.webid@ == new[i].webid@,
        last_write(tagged(new, play_id), new[i].webid@)->Some_0.1 == play_id,
        distinct_webids(new) ==> last_write(tagged(new, play_id), new[i].webid@)->Some_0.0 == new[i],
    decreases new.len(),
{
    let w = tagged(new, play_id);
    assert(w.drop_last() =~= tagged(new.drop_last(), play_id));
    if i < new.len() - 1 {
        assert(new.drop_last()[i] == new[i]);
        if new.last().webid@ != new[i].webid@ {
            lemma_last_write_tagged(new.drop_last(), play_id, i);
            assert(distinct_webids(new) ==> distinct_webids(new.drop_last()));
        } else {
            lemma_last_write_tagged_last(new, play_id);
        }
    } else {
        lemma_last_write_tagged_last(new, play_id);
    }
}

proof fn lemma_last_write_tagged_last(new: Seq<Screening>, play_id: i32)
    requires
        new.len() > 0,
    ensures
        last_write(tagged(new, play_id), new.last().webid@) == Some((new.last(), play_id)),
{
    assert(tagged(new, play_id).last() == (new.last(), play_id));
}

} // verus!
