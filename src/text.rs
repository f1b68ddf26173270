//! Small text utilities with exact specifications.

use vstd::prelude::*;

verus! {

/// The 25 characters with Unicode's `White_Space` property (PropList.txt).
pub open spec fn white_space(c: char) -> bool {
    let u = c as u32;
    (0x09 <= u <= 0x0D) || u == 0x20 || u == 0x85 || u == 0xA0 || u == 0x1680 || (0x2000 <= u
        <= 0x200A) || u == 0x2028 || u == 0x2029 || u == 0x202F || u == 0x205F || u == 0x3000
}

/// Relies on `char::is_whitespace`: true exactly for characters with the
/// Unicode `White_Space` property.
pub assume_specification[ char::is_whitespace ](c: char) -> (r: bool)
    ensures
        r == white_space(c),
;

/// Relies on `String::push`: appends one character.
pub assume_specification[ String::push ](s: &mut String, ch: char)
    ensures
        final(s)@ == old(s)@.push(ch),
;

/// Index of the first character of `s` that is not white space (`s.len()` if none).
pub open spec fn lead_end(s: Seq<char>) -> int
    decreases s.len(),
{
    if s.len() == 0 {
        0
    } else if white_space(s[0]) {
        1 + lead_end(s.drop_first())
    } else {
        0
    }
}

/// One past the last character of `s` that is not white space (0 if none).
pub open spec fn trail_start(s: Seq<char>) -> int
    decreases s.len(),
{
    if s.len() == 0 {
        0
    } else if white_space(s.last()) {
        trail_start(s.drop_last())
    } else {
        s.len() as int
    }
}

/// `s` without leading and trailing white space.
pub open spec fn trimmed(s: Seq<char>) -> Seq<char> {
    if trail_start(s) <= lead_end(s) {
        Seq::empty()
    } else {
        s.subrange(lead_end(s), trail_start(s))
    }
}

/// `s` with every line break replaced by a space.
pub open spec fn unbroken(s: Seq<char>) -> Seq<char> {
    s.map_values(|c: char| if c == '\n' { ' ' } else { c })
}

/// The parts joined, with `sep` between neighbours.
pub open spec fn joined(parts: Seq<Seq<char>>, sep: Seq<char>) -> Seq<char>
    decreases parts.len(),
{
    if parts.len() == 0 {
        Seq::empty()
    } else if parts.len() == 1 {
        parts[0]
    } else {
        joined(parts.drop_last(), sep) + sep + parts.last()
    }
}

/// The views of a vector of strings.
pub open spec fn views(v: Seq<String>) -> Seq<Seq<char>> {
    v.map_values(|s: String| s@)
}

proof fn lemma_lead_end_bounds(s: Seq<char>)
    ensures
        0 <= lead_end(s) <= s.len(),
        forall|k: int| 0 <= k < lead_end(s) ==> white_space(#[trigger] s[k]),
        lead_end(s) < s.len() ==> !white_space(s[lead_end(s)]),
    decreases s.len(),
{
    if s.len() > 0 && white_space(s[0]) {
        lemma_lead_end_bounds(s.drop_first());
        assert forall|k: int| 0 <= k < lead_end(s) implies white_space(#[trigger] s[k]) by {
            if k > 0 {
                assert(s[k] == s.drop_first()[k - 1]);
            }
        }
    }
}

proof fn lemma_trail_start_bounds(s: Seq<char>)
    ensures
        0 <= trail_start(s) <= s.len(),
        forall|k: int| trail_start(s) <= k < s.len() ==> white_space(#[trigger] s[k]),
        trail_start(s) > 0 ==> !white_space(s[trail_start(s) - 1]),
    decreases s.len(),
{
    if s.len() > 0 && white_space(s.last()) {
        lemma_trail_start_bounds(s.drop_last());
        assert forall|k: int| trail_start(s) <= k < s.len() implies white_space(#[trigger] s[k]) by {
            if k < s.len() - 1 {
                assert(s[k] == s.drop_last()[k]);
            }
        }
    }
}

proof fn lemma_lead_end_from(s: Seq<char>, i: int)
    requires
        0 <= i <= s.len(),
        forall|k: int| 0 <= k < i ==> white_space(#[trigger] s[k]),
        i == s.len() || !white_space(s[i]),
    ensures
        lead_end(s) == i,
    decreases s.len(),
{
    if i > 0 {
        assert(white_space(s[0]));
        assert forall|k: int| 0 <= k < i - 1 implies white_space(#[trigger] s.drop_first()[k]) by {
            assert(white_space(s[k + 1]));
        }
        if i < s.len() {
            assert(s.drop_first()[i - 1] == s[i]);
        }
        lemma_lead_end_from(s.drop_first(), i - 1);
    }
}

proof fn lemma_trail_start_from(s: Seq<char>, j: int)
    requires
        0 <= j <= s.len(),
        forall|k: int| j <= k < s.len() ==> white_space(#[trigger] s[k]),
        j == 0 || !white_space(s[j - 1]),
    ensures
        trail_start(s) == j,
    decreases s.len(),
{
    if j < s.len() {
        assert(white_space(s[s.len() - 1]));
        assert forall|k: int| j <= k < s.len() - 1 implies white_space(#[trigger] s.drop_last()[k]) by {
            assert(white_space(s[k]));
        }
        if j > 0 {
            assert(s.drop_last()[j - 1] == s[j - 1]);
        }
        lemma_trail_start_from(s.drop_last(), j);
    }
}

/// The characters of `s` from `from` up to `to`, as a new string.
pub fn slice_chars(s: &str, from: usize, to: usize) -> (r: String)
    requires
        from <= to <= s@.len(),
    ensures
        r@ == s@.subrange(from as int, to as int),
{
    let mut r = String::new();
    let mut i = from;
    while i < to
        invariant
            from <= i <= to <= s@.len(),
            r@ == s@.subrange(from as int, i as int),
        decreases to - i,
    {
        r.push(s.get_char(i));
        assert(r@ =~= s@.subrange(from as int, i + 1));
        i += 1;
    }
    r
}

/// Removes leading and trailing white space.
pub fn trim_spaces(s: &str) -> (r: String)
    ensures
        r@ == trimmed(s@),
{
    proof {
        lemma_lead_end_bounds(s@);
        lemma_trail_start_bounds(s@);
    }
    let n = s.unicode_len();
    let mut i: usize = 0;
    while i < n && s.get_char(i).is_whitespace()
        invariant
            n == s@.len(),
            i <= n,
            forall|k: int| 0 <= k < i ==> white_space(#[trigger] s@[k]),
        decreases n - i,
    {
        i += 1;
    }
    proof {
        lemma_lead_end_from(s@, i as int);
    }
    if i == n {
        return String::new();
    }
    let mut j: usize = n;
    while j > i && s.get_char(j - 1).is_whitespace()
        invariant
            n == s@.len(),
            i < n,
            i <= j <= n,
            !white_space(s@[i as int]),
            forall|k: int| j <= k < n ==> white_space(#[trigger] s@[k]),
        decreases j,
    {
        j -= 1;
    }
    proof {
        lemma_trail_start_from(s@, j as int);
    }
    slice_chars(s, i, j)
}

/// Replaces every line break by a space.
pub fn unbreak(s: &str) -> (r: String)
    ensures
        r@ == unbroken(s@),
{
    let n = s.unicode_len();
    let mut r = String::new();
    let mut i: usize = 0;
    while i < n
        invariant
            n == s@.len(),
            i <= n,
            r@ == unbroken(s@.subrange(0, i as int)),
        decreases n - i,
    {
        let c = s.get_char(i);
        if c == '\n' {
            r.push(' ');
        } else {
            r.push(c);
        }
        assert(unbroken(s@.subrange(0, i + 1)) =~= unbroken(s@.subrange(0, i as int)).push(
            if c == '\n' { ' ' } else { c },
        ));
        i += 1;
    }
    assert(s@.subrange(0, n as int) =~= s@);
    r
}

/// Puts a text on one line: line breaks become spaces, and the ends are trimmed.
pub fn single_line(s: &str) -> (r: String)
    ensures
        r@ == trimmed(unbroken(s@)),
{
    let u = unbreak(s);
    trim_spaces(u.as_str())
}

/// Joins the parts with a separator between neighbours.
pub fn join_with(parts: &Vec<String>, sep: &str) -> (r: String)
    ensures
        r@ == joined(views(parts@), sep@),
{
    let mut r = String::new();
    let mut i: usize = 0;
    while i < parts.len()
        invariant
            i <= parts@.len(),
            r@ == joined(views(parts@.subrange(0, i as int)), sep@),
        decreases parts@.len() - i,
    {
        let ghost before = views(parts@.subrange(0, i as int));
        if i > 0 {
            r.append(sep);
        }
        r.append(parts[i].as_str());
        assert(views(parts@.subrange(0, i + 1)).drop_last() =~= before);
        i += 1;
    }
    assert(parts@.subrange(0, parts@.len() as int) =~= parts@);
    r
}

/// Joins the lines with a line break between neighbours.
pub fn join_lines(lines: &Vec<String>) -> (r: String)
    ensures
        r@ == joined(views(lines@), seq!['\n']),
{
    let mut nl = String::new();
    nl.push('\n');
    join_with(lines, nl.as_str())
}

/// Whether `p` occurs in `s` at character index `i`.
pub open spec fn found_at(s: Seq<char>, p: Seq<char>, i: int) -> bool {
    0 <= i && i + p.len() <= s.len() && s.subrange(i, i + p.len()) == p
}

/// Whether `p` occurs in `s` at character index `i`.
pub fn occurs_at(s: &str, p: &str, i: usize) -> (r: bool)
    ensures
        r == found_at(s@, p@, i as int),
{
    let n = s.unicode_len();
    let m = p.unicode_len();
    if i > n || m > n - i {
        return false;
    }
    let mut k: usize = 0;
    while k < m
        invariant
            n == s@.len(),
            m == p@.len(),
            i + m <= n,
            k <= m,
            forall|j: int| 0 <= j < k ==> s@[i + j] == p@[j],
        decreases m - k,
    {
        if s.get_char(i + k) != p.get_char(k) {
            assert(s@.subrange(i as int, i + m)[k as int] != p@[k as int]);
            return false;
        }
        k += 1;
    }
    assert(s@.subrange(i as int, i + m) =~= p@);
    true
}

/// The first index from `i` on where `p` occurs in `s`.
pub open spec fn first_from(s: Seq<char>, p: Seq<char>, i: int) -> Option<int>
    decreases s.len() + 1 - i,
{
    if i < 0 || i + p.len() > s.len() {
        None
    } else if found_at(s, p, i) {
        Some(i)
    } else {
        first_from(s, p, i + 1)
    }
}

/// The first index where `p` occurs in `s`.
pub fn find(s: &str, p: &str) -> (r: Option<usize>)
    ensures
        r matches Some(k) ==> first_from(s@, p@, 0) == Some(k as int) && found_at(s@, p@, k as int),
        r is None ==> first_from(s@, p@, 0) is None,
{
    let n = s.unicode_len();
    let m = p.unicode_len();
    if m > n {
        return None;
    }
    let mut i: usize = 0;
    while i < n - m
        invariant
            n == s@.len(),
            m == p@.len(),
            m <= n,
            i <= n - m,
            first_from(s@, p@, 0) == first_from(s@, p@, i as int),
        decreases n - m - i,
    {
        if occurs_at(s, p, i) {
            return Some(i);
        }
        i += 1;
    }
    if occurs_at(s, p, i) {
        Some(i)
    } else {
        assert(first_from(s@, p@, i + 1) is None);
        None
    }
}

/// Whether the two texts are equal.
pub fn same_text(a: &str, b: &str) -> (r: bool)
    ensures
        r == (a@ == b@),
{
    let n = a.unicode_len();
    if n != b.unicode_len() {
        return false;
    }
    assert(a@.subrange(0, n as int) =~= a@);
    occurs_at(a, b, 0)
}

/// Whether `p` occurs somewhere in `s`.
pub fn contains_text(s: &str, p: &str) -> (r: bool)
    ensures
        r == (first_from(s@, p@, 0) is Some),
{
    find(s, p).is_some()
}

/// The lines put on one line each (see `single_line`).
pub open spec fn cleaned(texts: Seq<Seq<char>>) -> Seq<Seq<char>> {
    texts.map_values(|t: Seq<char>| trimmed(unbroken(t)))
}

/// Each text put on one line.
pub fn single_lines(texts: &Vec<String>) -> (r: Vec<String>)
    ensures
        views(r@) == cleaned(views(texts@)),
{
    let mut r: Vec<String> = Vec::new();
    let mut i: usize = 0;
    while i < texts.len()
        invariant
            i <= texts@.len(),
            views(r@) == cleaned(views(texts@.subrange(0, i as int))),
        decreases texts@.len() - i,
    {
        let ghost before = r@;
        let line = single_line(texts[i].as_str());
        r.push(line);
        assert(views(r@) =~= views(before).push(line@));
        assert(cleaned(views(texts@.subrange(0, i + 1))) =~= cleaned(views(texts@.subrange(0, i as int))).push(
            trimmed(unbroken(texts@[i as int]@)),
        ));
        i += 1;
    }
    assert(texts@.subrange(0, texts@.len() as int) =~= texts@);
    r
}

} // verus!
