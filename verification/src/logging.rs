//! What is told to the user while images are checked.

use crate::text::{append_str, chars_of, string_of};
use vstd::prelude::*;

verus! {

/// Which lines are told: those for debugging only where `debug` is set, and
/// warnings and notes only where `raw` is not.
#[derive(Clone, Copy, Debug, PartialEq, Eq, Structural)]
pub struct Logger {
    debug: bool,
    raw: bool,
}

/// A line made of a mark and a message.
pub open spec fn line(mark: Seq<char>, msg: Seq<char>) -> Seq<char> {
    mark + seq![' '] + msg
}

impl Logger {
    /// Whether lines for debugging are told.
    pub closed spec fn tells_debug(self) -> bool {
        self.debug
    }

    /// Whether only the bare result is written out.
    pub closed spec fn is_raw(self) -> bool {
        self.raw
    }

    pub fn new(debug: bool, raw: bool) -> (r: Self)
        ensures
            r.tells_debug() == debug,
            r.is_raw() == raw,
    {
        Logger { debug, raw }
    }

    pub fn set_raw(&mut self, raw: bool)
        ensures
            final(self).is_raw() == raw,
            final(self).tells_debug() == old(self).tells_debug(),
    {
        self.raw = raw
    }

    /// The line for a warning, where warnings are told.
    pub fn warn_line(&self, msg: &str) -> (r: Option<String>)
        ensures
            self.is_raw() ==> r is None,
            !self.is_raw() ==> r is Some && r.unwrap()@ == line("\x1b[33;1m WARN\x1b[0m"@, msg@),
    {
        if self.raw {
            None
        } else {
            Some(make_line("\x1b[33;1m WARN\x1b[0m", msg))
        }
    }

    /// The line for a note, where notes are told.
    pub fn info_line(&self, msg: &str) -> (r: Option<String>)
        ensures
            self.is_raw() ==> r is None,
            !self.is_raw() ==> r is Some && r.unwrap()@ == line("\x1b[36;1m INFO\x1b[0m"@, msg@),
    {
        if self.raw {
            None
        } else {
            Some(make_line("\x1b[36;1m INFO\x1b[0m", msg))
        }
    }

    /// The line for debugging, where such lines are told.
    pub fn debug_line(&self, msg: &str) -> (r: Option<String>)
        ensures
            !self.tells_debug() ==> r is None,
            self.tells_debug() ==> r is Some && r.unwrap()@ == line("\x1b[35;1mDEBUG\x1b[0m"@, msg@),
    {
        if self.debug {
            Some(make_line("\x1b[35;1mDEBUG\x1b[0m", msg))
        } else {
            None
        }
    }
}

/// A line made of a mark and a message.
fn make_line(mark: &str, msg: &str) -> (r: String)
    ensures
        r@ == line(mark@, msg@),
{
    let mut r = chars_of(mark);
    r.push(' ');
    append_str(&mut r, msg);
    string_of(&r)
}

} // verus!
