//! Attendance polls for a show: one option per future screening, at most
//! ten options per poll.

use crate::clock::{decimal, option, push_decimal, start_label};
use crate::message::{future_screenings, upcoming};
use crate::models::Screening;
use crate::text::views;
use vstd::prelude::*;

verus! {

/// The most options the chat platform allows in one poll.
pub const MAX_POLL_OPTIONS: usize = 10;

/// The question every poll asks.
pub const POLL_QUESTION: &'static str = "When should we go?";

/// One poll to send: its title and options. Voters may pick several
/// options, and their votes are visible.
#[derive(Debug)]
pub struct Poll {
    pub title: String,
    pub options: Vec<String>,
    pub allows_multiple_answers: bool,
    pub is_anonymous: bool,
}

/// How many polls `n` options take.
pub open spec fn poll_count(n: int) -> int {
    (n + 9) / 10
}

/// Title of poll `i` of a series whose last index is `last`: the bare
/// question when there is one poll, else the question followed by `i/last`.
pub open spec fn poll_title_text(i: int, last: int) -> Seq<char> {
    if last > 0 {
        POLL_QUESTION@ + seq![' '] + decimal(i as nat) + seq!['/'] + decimal(last as nat)
    } else {
        POLL_QUESTION@
    }
}

/// The option labels of the given screenings.
pub open spec fn option_labels(ss: Seq<Screening>) -> Seq<Seq<char>> {
    ss.map_values(|s: Screening| start_label(s.start_time as int))
}

/// The screenings offered in poll `k`: the `k`-th run of at most ten.
pub open spec fn poll_chunk(ss: Seq<Screening>, k: int) -> Seq<Screening> {
    let end = if 10 * k + 10 <= ss.len() {
        10 * k + 10
    } else {
        ss.len() as int
    };
    ss.subrange(10 * k, end)
}

/// What `plan_polls` returns for the future screenings `f`.
pub open spec fn polls_for(f: Seq<Screening>, r: Seq<Poll>) -> bool {
    &&& r.len() == poll_count(f.len() as int)
    &&& forall|k: int|
        0 <= k < r.len() ==> {
            let p = #[trigger] r[k];
            &&& p.title@ == poll_title_text(k, r.len() - 1)
            &&& views(p.options@) == option_labels(poll_chunk(f, k))
            &&& p.allows_multiple_answers
            &&& !p.is_anonymous
        }
}

/// Title of poll `i` of a series whose last index is `last`.
pub fn poll_title(i: usize, last: usize) -> (r: String)
    ensures
        r@ == poll_title_text(i as int, last as int),
{
    let mut t = String::from_str(POLL_QUESTION);
    if last > 0 {
        t.push(' ');
        push_decimal(&mut t, i as u64);
        t.push('/');
        push_decimal(&mut t, last as u64);
        assert(t@ =~= poll_title_text(i as int, last as int));
    }
    t
}

fn chunk_options(f: &Vec<Screening>, start: usize, end: usize) -> (r: Vec<String>)
    requires
        start <= end <= f@.len(),
    ensures
        views(r@) == option_labels(f@.subrange(start as int, end as int)),
{
    let mut r: Vec<String> = Vec::new();
    let mut i = start;
    while i < end
        invariant
            start <= i <= end <= f@.len(),
            views(r@) == option_labels(f@.subrange(start as int, i as int)),
        decreases end - i,
    {
        let ghost before = r@;
        let label = option(f[i].start_time);
        r.push(label);
        assert(views(r@) =~= views(before).push(label@));
        assert(option_labels(f@.subrange(start as int, i + 1)) =~= option_labels(
            f@.subrange(start as int, i as int),
        ).push(start_label(f@[i as int].start_time as int)));
        i += 1;
    }
    r
}

/// The polls to send for a show's screenings at time `now`. Only screenings
/// that start after `now` are offered, in their order, ten to a poll; when
/// they take more than one poll each title ends with `i/last`, counting from 0.
pub fn plan_polls(screenings: &Vec<Screening>, now: i64) -> (r: Vec<Poll>)
    ensures
        polls_for(upcoming(screenings@, now), r@),
{
    let f = future_screenings(screenings, now);
    let n = f.len();
    let count = n / MAX_POLL_OPTIONS + if n % MAX_POLL_OPTIONS == 0 {
        0
    } else {
        1
    };
    assert(count == poll_count(n as int));
    let last: usize = if count > 0 {
        count - 1
    } else {
        0
    };
    let mut r: Vec<Poll> = Vec::new();
    let mut k: usize = 0;
    while k < count
        invariant
            n == f@.len(),
            count == poll_count(n as int),
            last == if count > 0 { count - 1 } else { 0 },
            k <= count,
            r@.len() == k,
            forall|j: int|
                0 <= j < k ==> {
                    let p = #[trigger] r@[j];
                    &&& p.title@ == poll_title_text(j, count - 1)
                    &&& views(p.options@) == option_labels(poll_chunk(f@, j))
                    &&& p.allows_multiple_answers
                    &&& !p.is_anonymous
                },
        decreases count - k,
    {
        assert(k * 10 < n) by (nonlinear_arith)
            requires
                k < count,
                count == (n + 9) / 10,
        ;
        let start = k * MAX_POLL_OPTIONS;
        let end = if n - start >= MAX_POLL_OPTIONS {
            start + MAX_POLL_OPTIONS
        } else {
            n
        };
        let options = chunk_options(&f, start, end);
        let title = poll_title(k, last);
        r.push(Poll { title, options, allows_multiple_answers: true, is_anonymous: false });
        k += 1;
    }
    r
}

/// A screening that starts at or before `now` is offered in no poll: every
/// option of every poll stands for a screening after `now`.
pub proof fn lemma_past_screenings_not_offered(ss: Seq<Screening>, now: i64, s: Screening)
    requires
        s.start_time <= now,
    ensures
        !upcoming(ss, now).contains(s),
        forall|k: int|
            0 <= 10 * k <= upcoming(ss, now).len() ==> !(#[trigger] poll_chunk(
                upcoming(ss, now),
                k,
            )).contains(s),
{
    let pred = |x: Screening| x.start_time > now;
    if upcoming(ss, now).contains(s) {
        let i = choose|i: int| 0 <= i < upcoming(ss, now).len() && upcoming(ss, now)[i] == s;
        ss.lemma_filter_pred(pred, i);
    }
    assert forall|k: int| 0 <= 10 * k <= upcoming(ss, now).len() implies !(#[trigger] poll_chunk(
        upcoming(ss, now),
        k,
    )).contains(s) by {
        let f = upcoming(ss, now);
        let c = poll_chunk(f, k);
        if c.contains(s) {
            let j = choose|j: int| 0 <= j < c.len() && c[j] == s;
            assert(f[10 * k + j] == s);
            assert(f.contains(s));
        }
    }
}

} // verus!
