//! Startup configuration of the selector: which options exist, what their
//! defaults are, and how their values parse.

use vstd::prelude::*;

use crate::text::{str_eq, trim, trim_of};

verus! {

/// The options the selector core reads at startup.
#[derive(Clone, Copy, PartialEq, Eq, Structural, Debug)]
pub struct Options {
    /// Filter matching lowercases both sides first.
    pub ignore_case: bool,
    /// A digit key switches straight to a numbered target.
    pub quick_jump: bool,
}

impl Options {
    /// The defaults: filtering ignores case, quick jumping is off.
    pub fn new() -> (o: Options)
        ensures
            o.ignore_case == true,
            o.quick_jump == false,
    {
        Options { ignore_case: true, quick_jump: false }
    }
}

/// What became of one configuration entry.
#[derive(Clone, Copy, PartialEq, Eq, Structural, Debug)]
pub enum Applied {
    /// The key is recognized and its value was stored.
    Updated,
    /// The key is not recognized; the entry deserves a warning, nothing more.
    UnknownKey,
    /// The key is recognized but its value is malformed; fatal at startup.
    InvalidValue,
}

/// How a boolean option value reads: exactly `true` or `false` once the
/// surrounding whitespace is trimmed away.
pub open spec fn spec_parse_bool(s: Seq<char>) -> Option<bool> {
    if trim_of(s) == "true"@ {
        Some(true)
    } else if trim_of(s) == "false"@ {
        Some(false)
    } else {
        None
    }
}

/// Parse a boolean option value.
pub fn parse_bool(s: &str) -> (r: Option<bool>)
    ensures
        r == spec_parse_bool(s@),
{
    let t = trim(s);
    if str_eq(t, "true") {
        Some(true)
    } else if str_eq(t, "false") {
        Some(false)
    } else {
        None
    }
}

/// Apply one configuration entry to the options. A recognized key with a
/// malformed value reports `InvalidValue`, an unrecognized key reports
/// `UnknownKey`, and in either case nothing changes.
pub fn apply_option(o: &mut Options, key: &str, value: &str) -> (r: Applied)
    ensures
        key@ == "ignore_case"@ || key@ == "quick_jump"@ ==> r == (match spec_parse_bool(value@) {
            Some(_) => Applied::Updated,
            None => Applied::InvalidValue,
        }),
        key@ == "ignore_case"@ ==> (spec_parse_bool(value@) matches Some(b) ==> *final(o) == (
        Options { ignore_case: b, ..*old(o) })),
        key@ == "quick_jump"@ ==> (spec_parse_bool(value@) matches Some(b) ==> *final(o) == (
        Options { quick_jump: b, ..*old(o) })),
        !(key@ == "ignore_case"@ || key@ == "quick_jump"@) ==> r == Applied::UnknownKey,
        r != Applied::Updated ==> *final(o) == *old(o),
{
    proof {
        reveal_strlit("ignore_case");
        reveal_strlit("quick_jump");
        assert("ignore_case"@.len() != "quick_jump"@.len());
    }
    if str_eq(key, "ignore_case") {
        match parse_bool(value) {
            Some(b) => {
                o.ignore_case = b;
                Applied::Updated
            },
            None => Applied::InvalidValue,
        }
    } else if str_eq(key, "quick_jump") {
        match parse_bool(value) {
            Some(b) => {
                o.quick_jump = b;
                Applied::Updated
            },
            None => Applied::InvalidValue,
        }
    } else {
        Applied::UnknownKey
    }
}

} // verus!
