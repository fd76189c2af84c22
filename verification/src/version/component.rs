//! A number of a version that remembers how many characters it was written
//! with.

use crate::text::{
    decimal_text, decimal_value, pad_left, padded_chars, parse_u32, string_of, u32_numeral,
    unsigned_digits,
};
use std::cmp::Ordering;
use std::num::ParseIntError;
use std::str::FromStr;
use vstd::prelude::*;

verus! {

/// A number together with the length of the text it was read from, so that
/// it can be written out again with the same number of leading zeros.
#[derive(Clone, Copy, Debug, PartialEq, Eq, Structural)]
pub struct VersionComponent {
    pub value: u32,
    /// A tag has at most 128 characters, so a length always fits.
    pub length: u8,
}

impl VersionComponent {
    /// The component as text: its value, filled up with zeros on the left to
    /// its length.
    pub open spec fn text(self) -> Seq<char> {
        pad_left(decimal_text(self.value as nat), self.length as nat)
    }

    /// Reads a component from a numeral. The length of a text of more than
    /// 255 characters is kept modulo 256.
    pub fn parse(s: &str) -> (r: Result<Self, ParseIntError>)
        ensures
            r is Ok <==> u32_numeral(s@),
            r matches Ok(c) ==> c.value == decimal_value(unsigned_digits(s@)) && c.length
                == s@.len() % 256,
    {
        match parse_u32(s) {
            Ok(value) => {
                let n: usize = s.unicode_len();
                Ok(VersionComponent { value, length: (n % 256) as u8 })
            },
            Err(e) => Err(e),
        }
    }

    /// The component as text.
    pub fn to_string(&self) -> (r: String)
        ensures
            r@ == self.text(),
    {
        string_of(&padded_chars(self.value, self.length as usize))
    }
}

impl FromStr for VersionComponent {
    type Err = ParseIntError;

    /// Reads a component from a numeral, as `parse` does.
    fn from_str(s: &str) -> (r: Result<Self, ParseIntError>)
        ensures
            r is Ok <==> u32_numeral(s@),
            r matches Ok(c) ==> c.value == decimal_value(unsigned_digits(s@)) && c.length
                == s@.len() % 256,
    {
        VersionComponent::parse(s)
    }
}

/// How two numbers compare.
pub open spec fn value_order(a: u32, b: u32) -> Ordering {
    if a < b {
        Ordering::Less
    } else if a > b {
        Ordering::Greater
    } else {
        Ordering::Equal
    }
}

/// How two components compare: by value when their lengths are equal, and
/// not at all otherwise.
pub open spec fn component_order(a: VersionComponent, b: VersionComponent) -> Option<Ordering> {
    if a.length == b.length {
        Some(value_order(a.value, b.value))
    } else {
        None
    }
}

impl PartialOrd for VersionComponent {
    fn partial_cmp(&self, other: &Self) -> (r: Option<Ordering>) {
        if self.length == other.length {
            if self.value < other.value {
                Some(Ordering::Less)
            } else if self.value > other.value {
                Some(Ordering::Greater)
            } else {
                Some(Ordering::Equal)
            }
        } else {
            None
        }
    }
}

impl vstd::std_specs::cmp::PartialOrdSpecImpl for VersionComponent {
    open spec fn obeys_partial_cmp_spec() -> bool {
        true
    }

    open spec fn partial_cmp_spec(&self, other: &Self) -> Option<Ordering> {
        component_order(*self, *other)
    }
}

/// Components of different lengths do not compare: neither is less than,
/// equal to or greater than the other.
pub proof fn lemma_lengths_differ(a: VersionComponent, b: VersionComponent)
    requires
        a.length != b.length,
    ensures
        component_order(a, b) is None,
        component_order(b, a) is None,
{
}

} // verus!
