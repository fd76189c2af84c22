//! The name of a registry: a host, with a port where it has one.

use crate::reference::DEFAULT_REGISTRY;
use crate::text::{
    all_digits, append_str, char_code, chars_of, is_digit, is_digit_char, slice_chars, split_chars,
    split_on, string_of, texts,
};
use std::str::FromStr;
use vstd::prelude::*;

verus! {

/// A registry, by its name.
#[derive(Debug, PartialEq, Eq, Hash)]
pub struct Registry {
    value: String,
}

/// A text that is no name of a registry.
#[derive(Debug, PartialEq, Eq)]
pub struct ParseRegistryError {
    pub registry: String,
}

/// A letter or a digit.
pub open spec fn is_alnum(c: char) -> bool {
    is_digit(c) || (97 <= c as int && c as int <= 122) || (65 <= c as int && c as int <= 90)
}

/// A digit of base sixteen, or a colon.
pub open spec fn is_hex_or_colon(c: char) -> bool {
    is_digit(c) || (97 <= c as int && c as int <= 102) || (65 <= c as int && c as int <= 70) || c
        == ':'
}

/// One piece of a domain name: letters, digits and hyphens, with a letter
/// or digit at each end.
pub open spec fn is_label(s: Seq<char>) -> bool {
    &&& s.len() >= 1
    &&& is_alnum(s[0])
    &&& is_alnum(s[s.len() - 1])
    &&& forall|i: int| 0 <= i < s.len() ==> is_alnum(#[trigger] s[i]) || s[i] == '-'
}

/// A domain name: pieces separated by dots.
pub open spec fn is_domain(s: Seq<char>) -> bool {
    forall|i: int| 0 <= i < split_on(s, '.').len() ==> is_label(#[trigger] split_on(s, '.')[i])
}

/// An address in brackets: digits of base sixteen and colons, at least one.
pub open spec fn is_bracketed(s: Seq<char>) -> bool {
    &&& s.len() >= 3
    &&& s[0] == '['
    &&& s[s.len() - 1] == ']'
    &&& forall|i: int| 1 <= i < s.len() - 1 ==> is_hex_or_colon(#[trigger] s[i])
}

/// A host: a domain name or an address in brackets.
pub open spec fn is_host(s: Seq<char>) -> bool {
    is_domain(s) || is_bracketed(s)
}

/// The last position before `upto` that holds `c`, or -1.
pub open spec fn last_of(s: Seq<char>, c: char, upto: int) -> int
    decreases upto,
{
    if upto <= 0 || upto > s.len() {
        -1
    } else if s[upto - 1] == c {
        upto - 1
    } else {
        last_of(s, c, upto - 1)
    }
}

/// The name of a registry: a host, or a host, a colon and a port of at least
/// one digit.
pub open spec fn is_registry_name(s: Seq<char>) -> bool {
    is_host(s) || ({
        let k = last_of(s, ':', s.len() as int);
        &&& 0 <= k < s.len()
        &&& is_host(s.subrange(0, k))
        &&& k + 1 < s.len()
        &&& all_digits(s.subrange(k + 1, s.len() as int))
    })
}

/// The name that a text stands for: the default registry for the empty
/// text, the text itself where it is the name of a registry.
pub open spec fn named_registry(s: Seq<char>) -> Option<Seq<char>> {
    if s.len() == 0 {
        Some(DEFAULT_REGISTRY@)
    } else if is_registry_name(s) {
        Some(s)
    } else {
        None
    }
}

fn is_alnum_char(c: char) -> (r: bool)
    ensures
        r == is_alnum(c),
{
    let n = char_code(c);
    is_digit_char(c) || (97 <= n && n <= 122) || (65 <= n && n <= 90)
}

fn is_hex_or_colon_char(c: char) -> (r: bool)
    ensures
        r == is_hex_or_colon(c),
{
    let n = char_code(c);
    is_digit_char(c) || (97 <= n && n <= 102) || (65 <= n && n <= 70) || c == ':'
}

fn is_label_chars(v: &Vec<char>) -> (r: bool)
    ensures
        r == is_label(v@),
{
    if v.len() == 0 {
        return false;
    }
    if !is_alnum_char(v[0]) || !is_alnum_char(v[v.len() - 1]) {
        return false;
    }
    let mut i: usize = 0;
    while i < v.len()
        invariant
            i <= v.len(),
            forall|k: int| 0 <= k < i ==> is_alnum(#[trigger] v@[k]) || v@[k] == '-',
        decreases v.len() - i,
    {
        if !is_alnum_char(v[i]) && v[i] != '-' {
            return false;
        }
        i += 1;
    }
    true
}

fn is_domain_chars(v: &Vec<char>) -> (r: bool)
    ensures
        r == is_domain(v@),
{
    let pieces = split_chars(v, '.');
    let mut i: usize = 0;
    while i < pieces.len()
        invariant
            i <= pieces.len(),
            texts(pieces@) == split_on(v@, '.'),
            forall|k: int| 0 <= k < i ==> is_label(#[trigger] split_on(v@, '.')[k]),
        decreases pieces.len() - i,
    {
        assert(texts(pieces@)[i as int] == pieces@[i as int]@);
        if !is_label_chars(&pieces[i]) {
            return false;
        }
        i += 1;
    }
    true
}

fn is_bracketed_chars(v: &Vec<char>) -> (r: bool)
    ensures
        r == is_bracketed(v@),
{
    if v.len() < 3 || v[0] != '[' || v[v.len() - 1] != ']' {
        return false;
    }
    let mut i: usize = 1;
    while i < v.len() - 1
        invariant
            1 <= i <= v.len() - 1,
            forall|k: int| 1 <= k < i ==> is_hex_or_colon(#[trigger] v@[k]),
        decreases v.len() - i,
    {
        if !is_hex_or_colon_char(v[i]) {
            return false;
        }
        i += 1;
    }
    true
}

fn is_host_chars(v: &Vec<char>) -> (r: bool)
    ensures
        r == is_host(v@),
{
    is_domain_chars(v) || is_bracketed_chars(v)
}

/// The last position that holds `c`.
fn last_place(v: &Vec<char>, c: char) -> (r: Option<usize>)
    ensures
        match r {
            Some(k) => k < v.len() && k == last_of(v@, c, v.len() as int),
            None => last_of(v@, c, v.len() as int) == -1,
        },
{
    let mut n: usize = v.len();
    while n > 0
        invariant
            n <= v.len(),
            last_of(v@, c, v.len() as int) == last_of(v@, c, n as int),
        decreases n,
    {
        if v[n - 1] == c {
            return Some(n - 1);
        }
        n -= 1;
    }
    None
}

fn all_digit_chars(v: &Vec<char>) -> (r: bool)
    ensures
        r == all_digits(v@),
{
    let mut i: usize = 0;
    while i < v.len()
        invariant
            i <= v.len(),
            forall|k: int| 0 <= k < i ==> is_digit(#[trigger] v@[k]),
        decreases v.len() - i,
    {
        if !is_digit_char(v[i]) {
            return false;
        }
        i += 1;
    }
    true
}

/// Whether a text is the name of a registry.
pub fn is_registry(s: &str) -> (r: bool)
    ensures
        r == is_registry_name(s@),
{
    let v = chars_of(s);
    if is_host_chars(&v) {
        return true;
    }
    match last_place(&v, ':') {
        Some(k) => {
            if k + 1 >= v.len() {
                return false;
            }
            let host = slice_chars(&v, 0, k);
            let port = slice_chars(&v, k + 1, v.len());
            is_host_chars(&host) && all_digit_chars(&port)
        },
        None => false,
    }
}

impl Registry {
    /// The name of the registry.
    pub closed spec fn name(self) -> Seq<char> {
        self.value@
    }

    /// Reads the name of a registry. The empty text stands for the default
    /// registry.
    pub fn parse(s: &str) -> (r: Result<Self, ParseRegistryError>)
        ensures
            match named_registry(s@) {
                Some(name) => r is Ok && r->Ok_0.name() == name,
                None => r is Err && r->Err_0.registry@ == s@,
            },
    {
        if s.unicode_len() == 0 {
            Ok(Registry { value: DEFAULT_REGISTRY.to_owned() })
        } else if is_registry(s) {
            Ok(Registry { value: s.to_owned() })
        } else {
            Err(ParseRegistryError { registry: s.to_owned() })
        }
    }

    /// The name of the registry.
    pub fn as_str(&self) -> (r: &str)
        ensures
            r@ == self.name(),
    {
        self.value.as_str()
    }

    /// A copy of the registry.
    pub fn duplicate(&self) -> (r: Self)
        ensures
            r.name() == self.name(),
    {
        Registry { value: self.value.clone() }
    }
}

impl FromStr for Registry {
    type Err = ParseRegistryError;

    /// Reads the name of a registry, as `parse` does.
    fn from_str(s: &str) -> (r: Result<Self, ParseRegistryError>)
        ensures
            match named_registry(s@) {
                Some(name) => r is Ok && r->Ok_0.name() == name,
                None => r is Err && r->Err_0.registry@ == s@,
            },
    {
        Registry::parse(s)
    }
}

impl ParseRegistryError {
    /// The error in words.
    pub open spec fn message(self) -> Seq<char> {
        seq!['`'] + self.registry@ + "` is not a valid registry hostname"@
    }

    /// The error in words.
    pub fn to_string(&self) -> (r: String)
        ensures
            r@ == self.message(),
    {
        let mut r: Vec<char> = Vec::new();
        r.push('`');
        append_str(&mut r, self.registry.as_str());
        append_str(&mut r, "` is not a valid registry hostname");
        string_of(&r)
    }
}

} // verus!
