//! The pinned summary of a show: its text and the hash used to notice changes.

use crate::clock::{date_time_text, option, start_label, to_zurich_time, zurich_time_of};
use crate::models::{Play, Screening};
use crate::text::occurs_at;
use std::collections::hash_map::DefaultHasher;
use std::hash::Hasher;
use vstd::prelude::*;
use vstd::std_specs::hash::DefaultHasherAdditionalSpecFns;
use vstd::utf8::encode_utf8;

verus! {

/// The site that the listings come from; show urls are relative to it.
pub const BASE_URL: &'static str = "https://www.schauspielhaus.ch";

/// Ticket shop page of one event; the event number follows.
pub const TICKET_SHOP_URL: &'static str = "https://www.zurichticket.ch/shz.webshop/webticket/shop?event=";

/// What calendar ids start with before the event number.
pub const EVENT_PREFIX: &'static str = "event_";

/// What calendar ids end with after the event number.
pub const EVENT_SUFFIX: &'static str = "@www.schauspielhaus.ch";

/// The characters that Telegram's MarkdownV2 reserves.
pub open spec fn markdown_special(c: char) -> bool {
    c == '_' || c == '*' || c == '[' || c == ']' || c == '(' || c == ')' || c == '~' || c == '`'
        || c == '>' || c == '#' || c == '+' || c == '-' || c == '=' || c == '|' || c == '{'
        || c == '}' || c == '.' || c == '!'
}

/// `s` with a backslash before each reserved character.
pub open spec fn escaped(s: Seq<char>) -> Seq<char>
    decreases s.len(),
{
    if s.len() == 0 {
        Seq::empty()
    } else if markdown_special(s.last()) {
        escaped(s.drop_last()) + seq!['\\', s.last()]
    } else {
        escaped(s.drop_last()).push(s.last())
    }
}

/// Relies on teloxide's `utils::markdown::escape`, which puts a backslash
/// before each of `_*[]()~`>#+-=|{}.!` and leaves every other character.
#[verifier::external_body]
fn escape(s: &str) -> (r: String)
    ensures
        r@ == escaped(s@),
{
    teloxide::utils::markdown::escape(s)
}

/// `s` with every leading copy of `p` removed (all of them, as
/// `trim_start_matches` does).
pub open spec fn without_prefixes(s: Seq<char>, p: Seq<char>) -> Seq<char>
    decreases s.len(),
{
    if p.len() > 0 && p.len() <= s.len() && s.subrange(0, p.len() as int) == p {
        without_prefixes(s.subrange(p.len() as int, s.len() as int), p)
    } else {
        s
    }
}

/// `s` with every trailing copy of `p` removed.
pub open spec fn without_suffixes(s: Seq<char>, p: Seq<char>) -> Seq<char>
    decreases s.len(),
{
    if p.len() > 0 && p.len() <= s.len() && s.subrange(s.len() - p.len(), s.len() as int) == p {
        without_suffixes(s.subrange(0, s.len() - p.len()), p)
    } else {
        s
    }
}

/// The event number inside a calendar id.
pub open spec fn event_number(webid: Seq<char>) -> Seq<char> {
    without_suffixes(without_prefixes(webid, EVENT_PREFIX@), EVENT_SUFFIX@)
}

/// The line of one screening in the summary.
pub open spec fn screening_line(s: Screening) -> Seq<char> {
    "\n\\- "@ + escaped(start_label(s.start_time as int)) + " [tickets]("@ + TICKET_SHOP_URL@
        + event_number(s.webid@) + ")"@
}

pub open spec fn screening_lines(ss: Seq<Screening>) -> Seq<char>
    decreases ss.len(),
{
    if ss.len() == 0 {
        Seq::empty()
    } else {
        screening_lines(ss.drop_last()) + screening_line(ss.last())
    }
}

/// The screenings that start after `now`, in their order.
pub open spec fn upcoming(ss: Seq<Screening>, now: i64) -> Seq<Screening> {
    ss.filter(|s: Screening| s.start_time > now)
}

/// Title, link, description and meta information of a show.
pub open spec fn header_text(p: Play) -> Seq<char> {
    "[*"@ + escaped(p.name@) + "*]("@ + BASE_URL@ + p.url@ + ") \u{1F3AD}\u{FE0F}\n\n"@
        + escaped(p.description@) + "\n\n"@ + escaped(p.meta_info@) + "\n"@
}

/// The summary text of a show with the given screenings (all of them listed).
pub open spec fn summary_text(p: Play, ss: Seq<Screening>) -> Seq<char> {
    header_text(p) + (if ss.len() > 0 {
        "\n\u{1F39F}\u{FE0F} *Screenings*:"@
    } else {
        Seq::empty()
    }) + screening_lines(ss)
}

/// Where a screening that starts at `t` goes among `ss`: after every
/// screening that starts no later.
pub open spec fn insert_position(ss: Seq<Screening>, t: i64) -> int
    decreases ss.len(),
{
    if ss.len() == 0 || ss[0].start_time > t {
        0
    } else {
        1 + insert_position(ss.drop_first(), t)
    }
}

/// The screenings ordered by start time; those that start together keep
/// their order.
pub open spec fn by_start(ss: Seq<Screening>) -> Seq<Screening>
    decreases ss.len(),
{
    if ss.len() == 0 {
        ss
    } else {
        let r = by_start(ss.drop_last());
        r.insert(insert_position(r, ss.last().start_time), ss.last())
    }
}

/// The pinned summary of a show at time `now`: the screenings after `now`
/// are listed by start time.
pub open spec fn pinned_text(p: Play, ss: Seq<Screening>, now: i64) -> Seq<char> {
    summary_text(p, by_start(upcoming(ss, now)))
}

/// The change-detection hash of a message body: the standard library's
/// `DefaultHasher` over the body's UTF-8 bytes, written once.
pub open spec fn body_hash(body: Seq<char>) -> u64 {
    DefaultHasher::spec_finish(seq![encode_utf8(body)])
}

/// Removes all leading copies of `p` from `s`.
fn strip_prefixes(s: &str, p: &str) -> (r: String)
    ensures
        r@ == without_prefixes(s@, p@),
{
    let n = s.unicode_len();
    let m = p.unicode_len();
    let mut i: usize = 0;
    assert(s@.subrange(0, n as int) =~= s@);
    while m > 0 && occurs_at(s, p, i)
        invariant
            n == s@.len(),
            m == p@.len(),
            i <= n,
            without_prefixes(s@, p@) == without_prefixes(s@.subrange(i as int, n as int), p@),
        decreases n - i,
    {
        proof {
            let t = s@.subrange(i as int, n as int);
            assert(t.subrange(0, m as int) =~= s@.subrange(i as int, i + m));
            assert(t.subrange(m as int, t.len() as int) =~= s@.subrange(i + m, n as int));
        }
        i = i + m;
    }
    proof {
        let t = s@.subrange(i as int, n as int);
        if m > 0 && m <= t.len() {
            assert(t.subrange(0, m as int) =~= s@.subrange(i as int, i + m));
        }
    }
    crate::text::slice_chars(s, i, n)
}

/// Removes all trailing copies of `p` from `s`.
fn strip_suffixes(s: &str, p: &str) -> (r: String)
    ensures
        r@ == without_suffixes(s@, p@),
{
    let n = s.unicode_len();
    let m = p.unicode_len();
    let mut j: usize = n;
    assert(s@.subrange(0, n as int) =~= s@);
    while m > 0 && m <= j && occurs_at(s, p, j - m)
        invariant
            n == s@.len(),
            m == p@.len(),
            j <= n,
            without_suffixes(s@, p@) == without_suffixes(s@.subrange(0, j as int), p@),
        decreases j,
    {
        proof {
            let t = s@.subrange(0, j as int);
            assert(t.subrange(t.len() - m, t.len() as int) =~= s@.subrange(j - m, j as int));
            assert(t.subrange(0, t.len() - m) =~= s@.subrange(0, j - m));
        }
        j = j - m;
    }
    proof {
        let t = s@.subrange(0, j as int);
        if m > 0 && m <= t.len() {
            assert(t.subrange(t.len() - m, t.len() as int) =~= s@.subrange(j - m, j as int));
        }
    }
    crate::text::slice_chars(s, 0, j)
}

/// The event number inside a calendar id, as the ticket shop expects it.
pub fn ticket_event(webid: &str) -> (r: String)
    ensures
        r@ == event_number(webid@),
{
    let a = strip_prefixes(webid, EVENT_PREFIX);
    strip_suffixes(a.as_str(), EVENT_SUFFIX)
}

/// The screenings that start after `now`, in their order.
pub fn future_screenings(screenings: &Vec<Screening>, now: i64) -> (r: Vec<Screening>)
    ensures
        r@ == upcoming(screenings@, now),
{
    let mut r: Vec<Screening> = Vec::new();
    let mut i: usize = 0;
    while i < screenings.len()
        invariant
            i <= screenings@.len(),
            r@ == upcoming(screenings@.subrange(0, i as int), now),
        decreases screenings@.len() - i,
    {
        assert(screenings@.subrange(0, i + 1).drop_last() =~= screenings@.subrange(0, i as int));
        proof {
            reveal(Seq::filter);
        }
        if screenings[i].start_time > now {
            r.push(screenings[i].duplicate());
        }
        i += 1;
    }
    assert(screenings@.subrange(0, screenings@.len() as int) =~= screenings@);
    r
}

/// The line of one screening in the summary.
fn screening_line_of(s: &Screening) -> (r: String)
    ensures
        r@ == screening_line(*s),
{
    let mut m = String::new();
    m.append("\n\\- ");
    m.append(escape(option(s.start_time).as_str()).as_str());
    m.append(" [tickets](");
    m.append(TICKET_SHOP_URL);
    m.append(ticket_event(s.webid.as_str()).as_str());
    m.append(")");
    assert(m@ =~= screening_line(*s));
    m
}

proof fn lemma_insert_position_bounds(ss: Seq<Screening>, t: i64)
    ensures
        0 <= insert_position(ss, t) <= ss.len(),
    decreases ss.len(),
{
    if ss.len() > 0 && ss[0].start_time <= t {
        lemma_insert_position_bounds(ss.drop_first(), t);
    }
}

proof fn lemma_by_start_len(ss: Seq<Screening>)
    ensures
        by_start(ss).len() == ss.len(),
    decreases ss.len(),
{
    if ss.len() > 0 {
        lemma_by_start_len(ss.drop_last());
        lemma_insert_position_bounds(by_start(ss.drop_last()), ss.last().start_time);
    }
}

/// The screenings ordered by start time, those that start together in
/// their given order.
pub fn sort_by_start(screenings: &Vec<Screening>) -> (r: Vec<Screening>)
    ensures
        r@ == by_start(screenings@),
{
    let mut r: Vec<Screening> = Vec::new();
    let mut i: usize = 0;
    let n = screenings.len();
    let ghost all = screenings@;
    while i < n
        invariant
            all == screenings@,
            n == all.len(),
            i <= n,
            r@ == by_start(all.subrange(0, i as int)),
        decreases n - i,
    {
        let s = screenings[i].duplicate();
        assert(all.subrange(0, i + 1).drop_last() =~= all.subrange(0, i as int));
        let t = s.start_time;
        let m = r.len();
        let mut j: usize = 0;
        assert(r@.subrange(0, m as int) =~= r@);
        while j < m && r[j].start_time <= t
            invariant
                m == r@.len(),
                j <= m,
                insert_position(r@, t) == j + insert_position(r@.subrange(j as int, m as int), t),
            decreases m - j,
        {
            assert(r@.subrange(j as int, m as int).drop_first() =~= r@.subrange(j + 1, m as int));
            j += 1;
        }
        proof {
            lemma_insert_position_bounds(r@, t);
        }
        r.insert(j, s);
        i += 1;
    }
    assert(all.subrange(0, n as int) =~= all);
    r
}

/// The summary text of a show, listing every given screening.
pub fn summary_message(play: &Play, screenings: &Vec<Screening>) -> (r: String)
    ensures
        r@ == summary_text(*play, screenings@),
{
    let mut m = String::new();
    m.append("[*");
    m.append(escape(play.name.as_str()).as_str());
    m.append("*](");
    m.append(BASE_URL);
    m.append(play.url.as_str());
    m.append(") \u{1F3AD}\u{FE0F}\n\n");
    m.append(escape(play.description.as_str()).as_str());
    m.append("\n\n");
    m.append(escape(play.meta_info.as_str()).as_str());
    m.append("\n");
    assert(m@ =~= header_text(*play));
    if screenings.len() > 0 {
        m.append("\n\u{1F39F}\u{FE0F} *Screenings*:");
    }
    let ghost head = m@;
    let mut i: usize = 0;
    while i < screenings.len()
        invariant
            i <= screenings@.len(),
            m@ == head + screening_lines(screenings@.subrange(0, i as int)),
        decreases screenings@.len() - i,
    {
        let line = screening_line_of(&screenings[i]);
        m.append(line.as_str());
        assert(screenings@.subrange(0, i + 1).drop_last() =~= screenings@.subrange(0, i as int));
        i += 1;
    }
    assert(screenings@.subrange(0, screenings@.len() as int) =~= screenings@);
    assert(m@ =~= summary_text(*play, screenings@));
    m
}

/// The pinned summary of a show at time `now`: title with a link to the show,
/// description, meta information, then one line per screening after `now`,
/// by start time, with its Zurich date and a ticket link. Reserved MarkdownV2 characters of
/// the show's texts are escaped.
pub fn pinned_message(play: &Play, screenings: &Vec<Screening>, now: i64) -> (r: String)
    ensures
        r@ == pinned_text(*play, screenings@, now),
{
    let future = future_screenings(screenings, now);
    summary_message(play, &sort_by_start(&future))
}

/// The change-detection hash of a message body.
pub fn message_hash(body: &str) -> (r: u64)
    ensures
        r == body_hash(body@),
{
    let mut hasher = DefaultHasher::new();
    hasher.write(body.as_bytes());
    hasher.finish()
}

/// A screening's Zurich start (`dd.mm.yyyy HH:MM`, empty where it cannot
/// be represented) as a link to its calendar id: `[start](url webid)`.
pub open spec fn screening_link_text(s: Screening) -> Seq<char> {
    "["@ + match zurich_time_of(s.start_time as int) {
        Some(lt) => date_time_text(lt),
        None => Seq::empty(),
    } + "]("@ + s.url@ + s.webid@ + ")"@
}

/// A screening's Zurich start as a link to its calendar id.
pub fn screening_link(s: &Screening) -> (r: String)
    ensures
        r@ == screening_link_text(*s),
{
    let mut m = String::from_str("[");
    match to_zurich_time(s.start_time) {
        Some(lt) => m.append(lt.date_time_label().as_str()),
        None => {},
    }
    m.append("](");
    m.append(s.url.as_str());
    m.append(s.webid.as_str());
    m.append(")");
    assert(m@ =~= screening_link_text(*s));
    m
}

/// The hash of a show's pinned summary depends on the show's title, url,
/// description and meta information and on its screenings, and on nothing
/// else: the same data gives the same summary and the same hash on every
/// call. The texts are used as stored (extraction already put titles and
/// paragraphs on one line and trimmed them); only MarkdownV2's reserved
/// characters are escaped.
pub proof fn lemma_summary_hash_depends_on_data_only(p: Play, q: Play, ss: Seq<Screening>, now: i64)
    requires
        p.url@ == q.url@,
        p.name@ == q.name@,
        p.description@ == q.description@,
        p.meta_info@ == q.meta_info@,
    ensures
        pinned_text(p, ss, now) == pinned_text(q, ss, now),
        body_hash(pinned_text(p, ss, now)) == body_hash(pinned_text(q, ss, now)),
{
}

/// The summary lists the screenings after `now` in order of start time.
pub proof fn lemma_summary_in_start_order(ss: Seq<Screening>)
    ensures
        by_start(ss).len() == ss.len(),
        forall|i: int, j: int|
            0 <= i < j < ss.len() ==> #[trigger] by_start(ss)[i].start_time <= #[trigger] by_start(
                ss,
            )[j].start_time,
    decreases ss.len(),
{
    lemma_by_start_len(ss);
    if ss.len() > 0 {
        let r = by_start(ss.drop_last());
        let t = ss.last().start_time;
        lemma_summary_in_start_order(ss.drop_last());
        lemma_insert_position_splits(r, t);
        let k = insert_position(r, t);
        let out = r.insert(k, ss.last());
        lemma_by_start_len(ss.drop_last());
        lemma_insert_position_bounds(r, t);
        r.insert_ensures(k, ss.last());
        assert forall|i: int, j: int| 0 <= i < j < ss.len() implies #[trigger] out[i].start_time
            <= #[trigger] out[j].start_time by {
            if j < k {
                assert(out[i] == r[i] && out[j] == r[j]);
            } else if j == k {
                assert(out[i] == r[i]);
            } else if i < k {
                assert(out[i] == r[i] && out[j] == r[j - 1]);
            } else if i == k {
                assert(out[j] == r[j - 1]);
            } else {
                assert(out[i] == r[i - 1] && out[j] == r[j - 1]);
            }
        }
    }
}

proof fn lemma_insert_position_splits(ss: Seq<Screening>, t: i64)
    ensures
        forall|i: int| 0 <= i < insert_position(ss, t) ==> (#[trigger] ss[i]).start_time <= t,
        insert_position(ss, t) < ss.len() ==> ss[insert_position(ss, t)].start_time > t,
    decreases ss.len(),
{
    lemma_insert_position_bounds(ss, t);
    if ss.len() > 0 && ss[0].start_time <= t {
        lemma_insert_position_splits(ss.drop_first(), t);
        lemma_insert_position_bounds(ss.drop_first(), t);
        let k = insert_position(ss, t);
        if k < ss.len() {
            assert(ss[k] == ss.drop_first()[k - 1]);
        }
        assert forall|i: int| 0 <= i < insert_position(ss, t) implies (#[trigger] ss[i]).start_time
            <= t by {
            if i > 0 {
                assert(ss[i] == ss.drop_first()[i - 1]);
            }
        }
    }
}

} // verus!
