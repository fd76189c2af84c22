//! Finding versions in the text of a tag.
//!
//! A version is a run of digits, optionally followed by a dot and a second
//! run, optionally followed by a dot and a third run. Versions are looked for
//! from left to right, each search starting where the last version ended.

use crate::text::{all_digits, is_digit, is_digit_char};
use vstd::prelude::*;

verus! {

/// The end of the run of digits that starts at `i`: the first position from
/// `i` on that holds no digit.
pub open spec fn run_end(s: Seq<char>, i: int) -> int
    decreases s.len() - i,
{
    if 0 <= i < s.len() && is_digit(s[i]) {
        run_end(s, i + 1)
    } else {
        i
    }
}

/// The first position from `i` on that holds a digit, or the length of `s`
/// when there is none.
pub open spec fn digit_from(s: Seq<char>, i: int) -> int
    decreases s.len() - i,
{
    if 0 <= i < s.len() && !is_digit(s[i]) {
        digit_from(s, i + 1)
    } else {
        i
    }
}

/// A further number follows at `e`: a dot and then a digit.
pub open spec fn follows(s: Seq<char>, e: int) -> bool {
    0 <= e && e + 1 < s.len() && s[e] == '.' && is_digit(s[e + 1])
}

/// Where a version stands in a text. The major number is
/// `start..major_end`. When `minor_end > major_end` there is a minor number,
/// `major_end + 1..minor_end`; when `end > minor_end` there is a patch number,
/// `minor_end + 1..end`.
pub struct Found {
    pub start: int,
    pub major_end: int,
    pub minor_end: int,
    pub end: int,
}

impl Found {
    pub open spec fn has_minor(self) -> bool {
        self.minor_end > self.major_end
    }

    pub open spec fn has_patch(self) -> bool {
        self.end > self.minor_end
    }

    /// How many numbers the version has.
    pub open spec fn groups(self) -> nat {
        if self.has_patch() {
            3
        } else if self.has_minor() {
            2
        } else {
            1
        }
    }

    pub open spec fn major(self, s: Seq<char>) -> Seq<char> {
        s.subrange(self.start, self.major_end)
    }

    pub open spec fn minor(self, s: Seq<char>) -> Seq<char> {
        s.subrange(self.major_end + 1, self.minor_end)
    }

    pub open spec fn patch(self, s: Seq<char>) -> Seq<char> {
        s.subrange(self.minor_end + 1, self.end)
    }

    /// The positions are in order and inside `s`, every number is a nonempty
    /// run of digits, and the numbers are separated by single dots.
    pub open spec fn fits(self, s: Seq<char>) -> bool {
        &&& 0 <= self.start < self.major_end <= self.minor_end <= self.end <= s.len()
        &&& all_digits(self.major(s))
        &&& self.has_minor() ==> {
            &&& s[self.major_end] == '.'
            &&& self.major_end + 1 < self.minor_end
            &&& all_digits(self.minor(s))
        }
        &&& self.has_patch() ==> {
            &&& self.has_minor()
            &&& s[self.minor_end] == '.'
            &&& self.minor_end + 1 < self.end
            &&& all_digits(self.patch(s))
        }
    }
}

/// The version that starts with the digit at `p`: each number is the longest
/// run of digits, and a minor and a patch number are taken whenever a dot and
/// a digit follow.
pub open spec fn found_at(s: Seq<char>, p: int) -> Found {
    let major_end = run_end(s, p);
    let minor_end = if follows(s, major_end) {
        run_end(s, major_end + 1)
    } else {
        major_end
    };
    let end = if minor_end > major_end && follows(s, minor_end) {
        run_end(s, minor_end + 1)
    } else {
        minor_end
    };
    Found { start: p, major_end, minor_end, end }
}

/// The better of the version kept so far and a new one: the new one only
/// when it has more numbers.
pub open spec fn better(cur: Option<Found>, f: Found) -> Option<Found> {
    match cur {
        None => Some(f),
        Some(c) => if f.groups() > c.groups() {
            Some(f)
        } else {
            cur
        },
    }
}

/// The best version from `from` on, given the best one before `from`.
pub open spec fn best_scan(s: Seq<char>, from: int, cur: Option<Found>) -> Option<Found>
    decreases s.len() - from,
{
    let p = digit_from(s, from);
    if 0 <= from <= p < s.len() && is_digit(s[p]) {
        let f = found_at(s, p);
        if p < f.end <= s.len() {
            best_scan(s, f.end, better(cur, f))
        } else {
            cur
        }
    } else {
        cur
    }
}

/// The version of a text: among the versions found from left to right, the
/// one with the most numbers, and the first of those.
pub open spec fn best_found(s: Seq<char>) -> Option<Found> {
    best_scan(s, 0, None)
}

/// A run of digits ends inside the text, holds digits only and cannot be
/// made longer.
pub proof fn lemma_run_end(s: Seq<char>, i: int)
    requires
        0 <= i <= s.len(),
    ensures
        i <= run_end(s, i) <= s.len(),
        all_digits(s.subrange(i, run_end(s, i))),
        run_end(s, i) < s.len() ==> !is_digit(s[run_end(s, i)]),
        i < s.len() && is_digit(s[i]) ==> run_end(s, i) > i,
    decreases s.len() - i,
{
    if i < s.len() && is_digit(s[i]) {
        lemma_run_end(s, i + 1);
        let e = run_end(s, i);
        let t = s.subrange(i, e);
        let u = s.subrange(i + 1, e);
        assert forall|k: int| 0 <= k < t.len() implies is_digit(#[trigger] t[k]) by {
            if k > 0 {
                assert(t[k] == u[k - 1]);
            }
        }
    }
}

/// The search for a digit stops at a digit or at the end, and skips no digit.
pub proof fn lemma_digit_from(s: Seq<char>, i: int)
    requires
        0 <= i <= s.len(),
    ensures
        i <= digit_from(s, i) <= s.len(),
        digit_from(s, i) < s.len() ==> is_digit(s[digit_from(s, i)]),
        forall|k: int| i <= k < digit_from(s, i) ==> !is_digit(s[k]),
    decreases s.len() - i,
{
    if i < s.len() && !is_digit(s[i]) {
        lemma_digit_from(s, i + 1);
    }
}

/// The version that starts at a digit fits the text.
pub proof fn lemma_found_at(s: Seq<char>, p: int)
    requires
        0 <= p < s.len(),
        is_digit(s[p]),
    ensures
        found_at(s, p).fits(s),
        found_at(s, p).start == p,
{
    let f = found_at(s, p);
    lemma_run_end(s, p);
    if follows(s, f.major_end) {
        lemma_run_end(s, f.major_end + 1);
        if follows(s, f.minor_end) {
            lemma_run_end(s, f.minor_end + 1);
        }
    }
}

/// Every version that the search keeps fits the text.
pub proof fn lemma_best_scan(s: Seq<char>, from: int, cur: Option<Found>)
    requires
        0 <= from <= s.len(),
        cur matches Some(c) ==> c.fits(s),
    ensures
        best_scan(s, from, cur) matches Some(b) ==> b.fits(s),
        cur is Some ==> best_scan(s, from, cur) is Some,
        (exists|k: int| from <= k < s.len() && is_digit(s[k])) ==> best_scan(s, from, cur) is Some,
        best_scan(s, from, cur) is Some ==> cur is Some || exists|k: int|
            from <= k < s.len() && is_digit(s[k]),
    decreases s.len() - from,
{
    let p = digit_from(s, from);
    lemma_digit_from(s, from);
    if p < s.len() {
        lemma_found_at(s, p);
        let f = found_at(s, p);
        lemma_best_scan(s, f.end, better(cur, f));
    }
}

/// The versions of a text from `from` on, from left to right.
pub open spec fn found_all(s: Seq<char>, from: int) -> Seq<Found>
    decreases s.len() - from,
{
    let p = digit_from(s, from);
    if 0 <= from <= p < s.len() && is_digit(s[p]) {
        let f = found_at(s, p);
        if p < f.end <= s.len() {
            seq![f] + found_all(s, f.end)
        } else {
            Seq::empty()
        }
    } else {
        Seq::empty()
    }
}

/// The version at `i` has the most numbers of all in the list, and more
/// than every version before it.
pub open spec fn first_of_most(list: Seq<Found>, i: int) -> bool {
    &&& 0 <= i < list.len()
    &&& forall|j: int| 0 <= j < list.len() ==> (#[trigger] list[j]).groups() <= list[i].groups()
    &&& forall|j: int| 0 <= j < i ==> (#[trigger] list[j]).groups() < list[i].groups()
}

/// What the search keeps, given what it kept before: a later version only
/// when it has more numbers than the one kept before and than every version
/// in between, and no fewer than any version after it.
pub proof fn lemma_scan_keeps(s: Seq<char>, from: int, cur: Option<Found>)
    requires
        0 <= from <= s.len(),
    ensures
        cur is None && found_all(s, from).len() == 0 ==> best_scan(s, from, cur) is None,
        cur is None && found_all(s, from).len() > 0 ==> best_scan(s, from, cur) is Some
            && exists|i: int|
            first_of_most(found_all(s, from), i) && found_all(s, from)[i] == best_scan(
                s,
                from,
                cur,
            ).unwrap(),
        cur matches Some(c) ==> best_scan(s, from, cur) is Some && ({
            let b = best_scan(s, from, cur).unwrap();
            ||| b == c && forall|j: int|
                0 <= j < found_all(s, from).len() ==> (#[trigger] found_all(s, from)[j]).groups()
                    <= c.groups()
            ||| exists|i: int|
                first_of_most(found_all(s, from), i) && found_all(s, from)[i] == b && b.groups()
                    > c.groups()
        }),
    decreases s.len() - from,
{
    let p = digit_from(s, from);
    lemma_digit_from(s, from);
    let list = found_all(s, from);
    if p < s.len() {
        lemma_found_at(s, p);
        let f = found_at(s, p);
        let rest = found_all(s, f.end);
        let next = better(cur, f);
        lemma_scan_keeps(s, f.end, next);
        let b = best_scan(s, f.end, next).unwrap();
        assert(best_scan(s, from, cur) == Some(b));
        assert(list =~= seq![f] + rest);
        assert(list[0] == f);
        assert forall|j: int| 1 <= j < list.len() implies list[j] == rest[j - 1] by {}
        let n = next.unwrap();
        // What holds of the rest of the list, moved one place to the right.
        if b == n && forall|j: int|
            0 <= j < rest.len() ==> (#[trigger] rest[j]).groups() <= n.groups() {
            assert forall|j: int| 1 <= j < list.len() implies (#[trigger] list[j]).groups()
                <= n.groups() by {
                assert(list[j] == rest[j - 1]);
            }
            if n == f && (cur is None || f.groups() > cur.unwrap().groups()) {
                assert(first_of_most(list, 0));
            } else {
                assert(cur is Some && n == cur.unwrap());
                assert forall|j: int| 0 <= j < list.len() implies (#[trigger] list[j]).groups()
                    <= cur.unwrap().groups() by {
                    if j > 0 {
                        assert(list[j] == rest[j - 1]);
                    }
                }
            }
        } else {
            let i = choose|i: int|
                first_of_most(rest, i) && rest[i] == b && b.groups() > n.groups();
            assert(list[i + 1] == rest[i]);
            assert forall|j: int| 0 <= j < list.len() implies (#[trigger] list[j]).groups()
                <= list[i + 1].groups() by {
                if j > 0 {
                    assert(list[j] == rest[j - 1]);
                }
            }
            assert forall|j: int| 0 <= j < i + 1 implies (#[trigger] list[j]).groups() < list[i
                + 1].groups() by {
                if j > 0 {
                    assert(list[j] == rest[j - 1]);
                }
            }
            assert(first_of_most(list, i + 1));
        }
    }
}

/// The version of a text is the first of those with the most numbers among
/// the versions found from left to right; a text without a digit has none.
pub proof fn lemma_best_found(s: Seq<char>)
    ensures
        best_found(s) is None <==> found_all(s, 0).len() == 0,
        best_found(s) matches Some(b) ==> exists|i: int|
            first_of_most(found_all(s, 0), i) && found_all(s, 0)[i] == b,
{
    lemma_scan_keeps(s, 0, None);
}

/// The position of a version in a vector of characters.
#[derive(Clone, Copy, Debug)]
pub struct Span {
    pub start: usize,
    pub major_end: usize,
    pub minor_end: usize,
    pub end: usize,
}

impl Span {
    pub open spec fn model(self) -> Found {
        Found {
            start: self.start as int,
            major_end: self.major_end as int,
            minor_end: self.minor_end as int,
            end: self.end as int,
        }
    }

    /// How many numbers the version has.
    pub fn groups(&self) -> (r: u8)
        ensures
            r == self.model().groups(),
    {
        if self.end > self.minor_end {
            3
        } else if self.minor_end > self.major_end {
            2
        } else {
            1
        }
    }
}

/// The view of an optional span.
pub open spec fn span_model(cur: Option<Span>) -> Option<Found> {
    match cur {
        None => None,
        Some(c) => Some(c.model()),
    }
}

/// The end of the run of digits that starts at `i`.
pub fn run_end_at(v: &Vec<char>, i: usize) -> (e: usize)
    requires
        i <= v.len(),
    ensures
        e == run_end(v@, i as int),
        i <= e <= v.len(),
{
    let mut e: usize = i;
    while e < v.len() && is_digit_char(v[e])
        invariant
            i <= e <= v.len(),
            run_end(v@, i as int) == run_end(v@, e as int),
        decreases v.len() - e,
    {
        e += 1;
    }
    e
}

/// The first position from `i` on that holds a digit.
pub fn digit_from_at(v: &Vec<char>, i: usize) -> (p: usize)
    requires
        i <= v.len(),
    ensures
        p == digit_from(v@, i as int),
        i <= p <= v.len(),
{
    let mut p: usize = i;
    while p < v.len() && !is_digit_char(v[p])
        invariant
            i <= p <= v.len(),
            digit_from(v@, i as int) == digit_from(v@, p as int),
        decreases v.len() - p,
    {
        p += 1;
    }
    p
}

/// Whether a further number follows at `e`.
pub fn follows_at(v: &Vec<char>, e: usize) -> (r: bool)
    requires
        e <= v.len(),
    ensures
        r == follows(v@, e as int),
{
    e < v.len() && v.len() - e > 1 && v[e] == '.' && is_digit_char(v[e + 1])
}

/// The version that starts with the digit at `p`.
pub fn span_at(v: &Vec<char>, p: usize) -> (f: Span)
    requires
        p < v.len(),
        is_digit(v@[p as int]),
    ensures
        f.model() == found_at(v@, p as int),
        f.model().fits(v@),
{
    proof {
        lemma_found_at(v@, p as int);
    }
    let major_end = run_end_at(v, p);
    let minor_end = if follows_at(v, major_end) {
        run_end_at(v, major_end + 1)
    } else {
        major_end
    };
    let end = if minor_end > major_end && follows_at(v, minor_end) {
        run_end_at(v, minor_end + 1)
    } else {
        minor_end
    };
    Span { start: p, major_end, minor_end, end }
}

/// The version of a text, if it has one.
pub fn best_span(v: &Vec<char>) -> (r: Option<Span>)
    ensures
        span_model(r) == best_found(v@),
        r matches Some(f) ==> f.model().fits(v@),
{
    let mut cur: Option<Span> = None;
    let mut pos: usize = 0;
    let mut p: usize = digit_from_at(v, 0);
    proof {
        lemma_digit_from(v@, 0);
    }
    while p < v.len()
        invariant
            pos <= p <= v.len(),
            p == digit_from(v@, pos as int),
            p < v.len() ==> is_digit(v@[p as int]),
            best_found(v@) == best_scan(v@, pos as int, span_model(cur)),
            cur matches Some(c) ==> c.model().fits(v@),
        decreases v.len() - pos,
    {
        let f = span_at(v, p);
        cur = match cur {
            None => Some(f),
            Some(c) => if f.groups() > c.groups() {
                Some(f)
            } else {
                Some(c)
            },
        };
        pos = f.end;
        p = digit_from_at(v, pos);
        proof {
            lemma_digit_from(v@, pos as int);
        }
    }
    cur
}

} // verus!
