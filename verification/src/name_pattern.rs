//! Shell patterns for file names, compiled and matched by the `glob` crate.

use crate::decimal::{decimal_text, push_decimal};
use glob::Pattern;
use vstd::prelude::*;

verus! {

/// A pattern for file names that is no pattern.
#[derive(Debug, PartialEq, Eq)]
pub struct InvalidPattern {
    /// About where in the pattern the fault lies, counted in characters.
    pub position: usize,
    /// What the fault is.
    pub reason: String,
}

impl Clone for InvalidPattern {
    fn clone(&self) -> (copy: InvalidPattern)
        ensures
            copy == *self,
    {
        InvalidPattern { position: self.position, reason: self.reason.clone() }
    }
}

/// The fault that `glob::Pattern::new` finds in a pattern text, as a position
/// and a message; `None` where the text compiles. Which characters separate the
/// parts of a path, and so where `**` may stand, goes by the platform the
/// library is built for.
pub uninterp spec fn pattern_fault(pattern: Seq<char>) -> Option<(usize, Seq<char>)>;

/// Whether the pattern that `glob::Pattern::new` compiles from the text
/// matches the whole of `name`, as `glob::Pattern::matches` says; `false` where
/// the text does not compile.
pub uninterp spec fn pattern_matches(pattern: Seq<char>, name: Seq<char>) -> bool;

/// Compiles a pattern with `glob::Pattern::new` and hands back the fault, if
/// there is one. The contract names the result.
#[verifier::external_body]
pub(crate) fn find_fault(pattern: &str) -> (fault: Option<InvalidPattern>)
    ensures
        match pattern_fault(pattern@) {
            Some((position, reason)) => fault is Some && fault->Some_0.position == position
                && fault->Some_0.reason@ == reason,
            None => fault is None,
        },
{
    match Pattern::new(pattern) {
        Ok(_) => None,
        Err(fault) => Some(InvalidPattern { position: fault.pos, reason: fault.msg.to_string() }),
    }
}

/// Compiles a pattern with `glob::Pattern::new` and matches a name against it
/// with `glob::Pattern::matches`, that is case sensitively and with no
/// character treated apart. The contract names the result.
#[verifier::external_body]
pub(crate) fn match_name(pattern: &str, name: &str) -> (matched: bool)
    ensures
        matched == pattern_matches(pattern@, name@),
{
    match Pattern::new(pattern) {
        Ok(compiled) => compiled.matches(name),
        Err(_) => false,
    }
}

impl InvalidPattern {
    /// The message: where the fault lies and what it is.
    pub open spec fn message_text(self) -> Seq<char> {
        "Pattern syntax error near position "@ + decimal_text(self.position as nat) + ": "@
            + self.reason@
    }

    /// A sentence for the user that says where the fault lies and what it is.
    pub fn message(&self) -> (text: String)
        ensures
            text@ == self.message_text(),
    {
        let mut text = String::new();
        text.append("Pattern syntax error near position ");
        push_decimal(&mut text, self.position as u64);
        text.append(": ");
        text.append(self.reason.as_str());
        text
    }
}

} // verus!
