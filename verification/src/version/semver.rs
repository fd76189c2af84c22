//! Versions of three plain numbers, read from a tag without keeping the text
//! around them.
//!
//! A number is written without leading zeros: a zero ends a major or a minor
//! number at once. The last of three numbers may be written with leading
//! zeros, which do not count.

use crate::status::{Status, StatusModel};
use crate::text::{all_digits, chars_of, decimal_value, is_digit, parse_decimal};
use crate::version::scan::{
    better, digit_from, digit_from_at, follows, follows_at, lemma_digit_from, lemma_run_end,
    run_end, run_end_at, span_model, Found, Span,
};
use std::cmp::Ordering;
use vstd::prelude::*;

verus! {

/// A version of three numbers.
#[derive(Clone, Copy, Debug, PartialEq, Eq, Structural)]
pub struct SemVer {
    pub major: i32,
    pub minor: Option<i32>,
    pub patch: Option<i32>,
}

/// The end of the number that starts with the digit at `i`: the next
/// position when the digit is a zero, else the end of the run of digits.
pub open spec fn numeral_end(s: Seq<char>, i: int) -> int {
    if 0 <= i < s.len() && s[i] == '0' {
        i + 1
    } else {
        run_end(s, i)
    }
}

/// The version that starts with the digit at `p`.
pub open spec fn plain_found_at(s: Seq<char>, p: int) -> Found {
    let major_end = numeral_end(s, p);
    let minor_end = if follows(s, major_end) {
        numeral_end(s, major_end + 1)
    } else {
        major_end
    };
    let end = if minor_end > major_end && follows(s, minor_end) {
        run_end(s, minor_end + 1)
    } else {
        minor_end
    };
    Found { start: p, major_end, minor_end, end }
}

/// The best version from `from` on, given the best one before `from`.
pub open spec fn plain_scan(s: Seq<char>, from: int, cur: Option<Found>) -> Option<Found>
    decreases s.len() - from,
{
    let p = digit_from(s, from);
    if 0 <= from <= p < s.len() && is_digit(s[p]) {
        let f = plain_found_at(s, p);
        if p < f.end <= s.len() {
            plain_scan(s, f.end, better(cur, f))
        } else {
            cur
        }
    } else {
        cur
    }
}

/// The version of a tag: among the versions found from left to right, the
/// one with the most numbers, and the first of those.
pub open spec fn plain_found(s: Seq<char>) -> Option<Found> {
    plain_scan(s, 0, None)
}

/// Every number of the version at `f` fits 31 bits.
pub open spec fn plain_keeps(s: Seq<char>, f: Found) -> bool {
    &&& decimal_value(f.major(s)) <= i32::MAX
    &&& f.has_minor() ==> decimal_value(f.minor(s)) <= i32::MAX
    &&& f.has_patch() ==> decimal_value(f.patch(s)) <= i32::MAX
}

/// The version at `f`. A number that is not written counts as zero.
pub open spec fn plain_model(s: Seq<char>, f: Found) -> SemVer {
    SemVer {
        major: decimal_value(f.major(s)) as i32,
        minor: Some(
            if f.has_minor() {
                decimal_value(f.minor(s)) as i32
            } else {
                0
            },
        ),
        patch: Some(
            if f.has_patch() {
                decimal_value(f.patch(s)) as i32
            } else {
                0
            },
        ),
    }
}

/// What a tag is read as: nothing when it holds no digit or a number of its
/// version is too large.
pub open spec fn plain_parsed(s: Seq<char>) -> Option<SemVer> {
    match plain_found(s) {
        Some(f) => if plain_keeps(s, f) {
            Some(plain_model(s, f))
        } else {
            None
        },
        None => None,
    }
}

/// The version that starts at a digit fits the text.
pub proof fn lemma_plain_found_at(s: Seq<char>, p: int)
    requires
        0 <= p < s.len(),
        is_digit(s[p]),
    ensures
        plain_found_at(s, p).fits(s),
{
    let f = plain_found_at(s, p);
    lemma_run_end(s, p);
    lemma_single(s, p);
    if follows(s, f.major_end) {
        lemma_run_end(s, f.major_end + 1);
        lemma_single(s, f.major_end + 1);
        if follows(s, f.minor_end) {
            lemma_run_end(s, f.minor_end + 1);
        }
    }
}

/// A single digit is a run of digits.
proof fn lemma_single(s: Seq<char>, p: int)
    requires
        0 <= p < s.len(),
        is_digit(s[p]),
    ensures
        all_digits(s.subrange(p, p + 1)),
{
    assert forall|k: int| 0 <= k < s.subrange(p, p + 1).len() implies is_digit(
        #[trigger] s.subrange(p, p + 1)[k],
    ) by {
        assert(s.subrange(p, p + 1)[k] == s[p]);
    }
}

/// The end of the number that starts with the digit at `i`.
fn numeral_end_at(v: &Vec<char>, i: usize) -> (e: usize)
    requires
        i < v.len(),
    ensures
        e == numeral_end(v@, i as int),
        i <= e <= v.len(),
{
    if v[i] == '0' {
        i + 1
    } else {
        run_end_at(v, i)
    }
}

/// The version that starts with the digit at `p`.
fn plain_span_at(v: &Vec<char>, p: usize) -> (f: Span)
    requires
        p < v.len(),
        is_digit(v@[p as int]),
    ensures
        f.model() == plain_found_at(v@, p as int),
        f.model().fits(v@),
{
    proof {
        lemma_plain_found_at(v@, p as int);
    }
    let major_end = numeral_end_at(v, p);
    let minor_end = if follows_at(v, major_end) {
        numeral_end_at(v, major_end + 1)
    } else {
        major_end
    };
    let end = if minor_end > major_end && follows_at(v, minor_end) {
        run_end_at(v, minor_end + 1)
    } else {
        minor_end
    };
    Span { start: p, major_end, minor_end, end }
}

/// The version of a text, if it has one.
fn plain_best(v: &Vec<char>) -> (r: Option<Span>)
    ensures
        span_model(r) == plain_found(v@),
        r matches Some(f) ==> f.model().fits(v@),
{
    let mut cur: Option<Span> = None;
    let mut pos: usize = 0;
    let mut p: usize = digit_from_at(v, 0);
    proof {
        lemma_digit_from(v@, 0);
    }
    while p < v.len()
        invariant
            pos <= p <= v.len(),
            p == digit_from(v@, pos as int),
            p < v.len() ==> is_digit(v@[p as int]),
            plain_found(v@) == plain_scan(v@, pos as int, span_model(cur)),
            cur matches Some(c) ==> c.model().fits(v@),
        decreases v.len() - pos,
    {
        let f = plain_span_at(v, p);
        cur = match cur {
            None => Some(f),
            Some(c) => if f.groups() > c.groups() {
                Some(f)
            } else {
                Some(c)
            },
        };
        pos = f.end;
        p = digit_from_at(v, pos);
        proof {
            lemma_digit_from(v@, pos as int);
        }
    }
    cur
}

/// The number written at `v[start..end]`, when it fits 31 bits.
fn number_at(v: &Vec<char>, start: usize, end: usize) -> (r: Option<i32>)
    requires
        start <= end <= v.len(),
        all_digits(v@.subrange(start as int, end as int)),
    ensures
        r is Some <==> decimal_value(v@.subrange(start as int, end as int)) <= i32::MAX,
        r matches Some(n) ==> n == decimal_value(v@.subrange(start as int, end as int)),
{
    match parse_decimal(v, start, end) {
        Some(n) => if n <= 0x7fff_ffff {
            Some(n as i32)
        } else {
            None
        },
        None => None,
    }
}

/// Reads the version of a tag. A number that the tag does not write counts
/// as zero.
pub fn get_version(tag: &str) -> (r: Option<SemVer>)
    ensures
        r == plain_parsed(tag@),
{
    let v = chars_of(tag);
    let f = match plain_best(&v) {
        Some(f) => f,
        None => {
            return None;
        },
    };
    let major = match number_at(&v, f.start, f.major_end) {
        Some(n) => n,
        None => {
            return None;
        },
    };
    let minor = if f.minor_end > f.major_end {
        match number_at(&v, f.major_end + 1, f.minor_end) {
            Some(n) => n,
            None => {
                return None;
            },
        }
    } else {
        0
    };
    let patch = if f.end > f.minor_end {
        match number_at(&v, f.minor_end + 1, f.end) {
            Some(n) => n,
            None => {
                return None;
            },
        }
    } else {
        0
    };
    Some(SemVer { major, minor: Some(minor), patch: Some(patch) })
}

/// How two numbers compare.
pub open spec fn plain_order(a: i32, b: i32) -> Ordering {
    if a < b {
        Ordering::Less
    } else if a > b {
        Ordering::Greater
    } else {
        Ordering::Equal
    }
}

/// How two optional numbers compare: as numbers when both are there, and as
/// equal otherwise.
pub open spec fn loose_order(a: Option<i32>, b: Option<i32>) -> Ordering {
    match (a, b) {
        (Some(x), Some(y)) => plain_order(x, y),
        _ => Ordering::Equal,
    }
}

/// How two versions compare: by major, then minor, then patch number.
pub open spec fn sem_order(a: SemVer, b: SemVer) -> Ordering {
    match plain_order(a.major, b.major) {
        Ordering::Equal => match loose_order(a.minor, b.minor) {
            Ordering::Equal => loose_order(a.patch, b.patch),
            other => other,
        },
        other => other,
    }
}

/// What a remote version means for an image that runs the local one.
pub open spec fn sem_classified(remote: SemVer, local: SemVer) -> StatusModel {
    match sem_order(remote, local) {
        Ordering::Greater => if remote.major > local.major {
            StatusModel::UpdateMajor
        } else if loose_order(remote.minor, local.minor) == Ordering::Greater {
            StatusModel::UpdateMinor
        } else {
            StatusModel::UpdatePatch
        },
        Ordering::Equal => StatusModel::UpToDate,
        Ordering::Less => StatusModel::Unknown("tag does not exist"@),
    }
}

/// Compares two numbers.
fn compare_numbers(a: i32, b: i32) -> (r: Ordering)
    ensures
        r == plain_order(a, b),
{
    if a < b {
        Ordering::Less
    } else if a > b {
        Ordering::Greater
    } else {
        Ordering::Equal
    }
}

/// Compares two optional numbers.
fn compare_loose(a: Option<i32>, b: Option<i32>) -> (r: Ordering)
    ensures
        r == loose_order(a, b),
{
    match (a, b) {
        (Some(x), Some(y)) => compare_numbers(x, y),
        _ => Ordering::Equal,
    }
}

impl SemVer {
    /// Compares two versions.
    pub fn compare(&self, other: &Self) -> (r: Ordering)
        ensures
            r == sem_order(*self, *other),
    {
        match compare_numbers(self.major, other.major) {
            Ordering::Equal => match compare_loose(self.minor, other.minor) {
                Ordering::Equal => compare_loose(self.patch, other.patch),
                other => other,
            },
            other => other,
        }
    }

    /// What this version, found at the registry, means for an image that
    /// runs `base`.
    pub fn to_status(&self, base: &Self) -> (r: Status)
        ensures
            r@ == sem_classified(*self, *base),
    {
        match self.compare(base) {
            Ordering::Greater => {
                if self.major > base.major {
                    Status::UpdateMajor
                } else {
                    match compare_loose(self.minor, base.minor) {
                        Ordering::Greater => Status::UpdateMinor,
                        _ => Status::UpdatePatch,
                    }
                }
            },
            Ordering::Equal => Status::UpToDate,
            Ordering::Less => Status::Unknown("tag does not exist".to_owned()),
        }
    }
}

impl PartialOrd for SemVer {
    fn partial_cmp(&self, other: &Self) -> (r: Option<Ordering>) {
        Some(self.compare(other))
    }
}

impl vstd::std_specs::cmp::PartialOrdSpecImpl for SemVer {
    open spec fn obeys_partial_cmp_spec() -> bool {
        true
    }

    open spec fn partial_cmp_spec(&self, other: &Self) -> Option<Ordering> {
        Some(sem_order(*self, *other))
    }
}

} // verus!
