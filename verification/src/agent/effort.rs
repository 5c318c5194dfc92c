//! Reasoning effort: the three levels an OpenAI-compatible server accepts in
//! its `reasoning_effort` field, their wire names, and how user input names
//! them.
use vstd::prelude::*;

use crate::config::connection::ProviderKind;
use crate::text::{
    ascii_lower, chars_of, is_white_space, lowered, same, string_from, trim, trimmed, append,
    CharClass,
};

verus! {

/// How much reasoning a model should spend per response.
#[derive(Debug, Clone, Copy, PartialEq, Eq, Structural)]
pub enum ReasoningEffort {
    Low,
    Medium,
    High,
}

impl ReasoningEffort {
    /// Every level, lowest first.
    pub const ALL: [ReasoningEffort; 3] = [
        ReasoningEffort::Low,
        ReasoningEffort::Medium,
        ReasoningEffort::High,
    ];
}

/// The wire value of each level.
pub open spec fn effort_name(e: ReasoningEffort) -> Seq<char> {
    match e {
        ReasoningEffort::Low => seq!['l', 'o', 'w'],
        ReasoningEffort::Medium => seq!['m', 'e', 'd', 'i', 'u', 'm'],
        ReasoningEffort::High => seq!['h', 'i', 'g', 'h'],
    }
}

/// What a (trimmed, lower-cased) word names, if anything; `med` is accepted
/// as a shorthand for `medium`.
pub open spec fn effort_named(w: Seq<char>) -> Option<ReasoningEffort> {
    if w == effort_name(ReasoningEffort::Low) {
        Some(ReasoningEffort::Low)
    } else if w == effort_name(ReasoningEffort::Medium) || w == seq!['m', 'e', 'd'] {
        Some(ReasoningEffort::Medium)
    } else if w == effort_name(ReasoningEffort::High) {
        Some(ReasoningEffort::High)
    } else {
        None
    }
}

/// The word of `s` that parsing looks at: `s` trimmed of white space and
/// lower-cased (ASCII letters only).
pub open spec fn effort_word(s: Seq<char>) -> Seq<char> {
    ascii_lower(trim(s, CharClass::WhiteSpace))
}

pub open spec fn unknown_effort_message(w: Seq<char>) -> Seq<char> {
    "unknown effort level '"@ + w + "' (expected low, medium, or high)"@
}

/// The result of parsing `s` as an effort level.
pub open spec fn parse_effort_spec(s: Seq<char>) -> Result<ReasoningEffort, Seq<char>> {
    match effort_named(effort_word(s)) {
        Some(e) => Ok(e),
        None => Err(unknown_effort_message(effort_word(s))),
    }
}

impl ReasoningEffort {
    /// The wire value (`low`, `medium`, `high`); also what `/effort` prints.
    pub fn as_str(self) -> (r: &'static str)
        ensures
            r@ == effort_name(self),
    {
        match self {
            ReasoningEffort::Low => {
                proof {
                    reveal_strlit("low");
                }
                "low"
            },
            ReasoningEffort::Medium => {
                proof {
                    reveal_strlit("medium");
                }
                "medium"
            },
            ReasoningEffort::High => {
                proof {
                    reveal_strlit("high");
                }
                "high"
            },
        }
    }

    /// The wire value as an owned string (what `Display` prints).
    pub fn to_string(&self) -> (r: String)
        ensures
            r@ == effort_name(*self),
    {
        let s = self.as_str();
        s.to_owned()
    }
}

/// Parses an effort level: case-insensitive, surrounding white space ignored,
/// `med` accepted for `medium`.
pub fn parse_effort(s: &str) -> (r: Result<ReasoningEffort, String>)
    ensures
        r matches Ok(e) ==> parse_effort_spec(s@) == Ok::<ReasoningEffort, Seq<char>>(e),
        r matches Err(m) ==> parse_effort_spec(s@) == Err::<ReasoningEffort, Seq<char>>(m@),
{
    let cs = chars_of(s);
    let t = trimmed(&cs, &CharClass::WhiteSpace);
    let w = lowered(&t);
    let low = chars_of("low");
    let medium = chars_of("medium");
    let med = chars_of("med");
    let high = chars_of("high");
    proof {
        reveal_strlit("low");
        reveal_strlit("medium");
        reveal_strlit("med");
        reveal_strlit("high");
    }
    assert(low@ =~= effort_name(ReasoningEffort::Low));
    assert(medium@ =~= effort_name(ReasoningEffort::Medium));
    assert(med@ =~= seq!['m', 'e', 'd']);
    assert(high@ =~= effort_name(ReasoningEffort::High));
    if same(&w, &low) {
        Ok(ReasoningEffort::Low)
    } else if same(&w, &medium) || same(&w, &med) {
        Ok(ReasoningEffort::Medium)
    } else if same(&w, &high) {
        Ok(ReasoningEffort::High)
    } else {
        let mut m = chars_of("unknown effort level '");
        append(&mut m, &w);
        let tail = chars_of("' (expected low, medium, or high)");
        append(&mut m, &tail);
        Err(string_from(&m))
    }
}

impl core::str::FromStr for ReasoningEffort {
    type Err = String;

    fn from_str(s: &str) -> (r: Result<Self, Self::Err>)
        ensures
            r matches Ok(e) ==> parse_effort_spec(s@) == Ok::<ReasoningEffort, Seq<char>>(e),
            r matches Err(m) ==> parse_effort_spec(s@) == Err::<ReasoningEffort, Seq<char>>(m@),
    {
        parse_effort(s)
    }
}

/// Whether a reasoning effort can be sent for a provider kind: only
/// OpenAI-compatible connections carry it.
pub fn supports_effort(provider: ProviderKind) -> (r: bool)
    ensures
        r == (provider == ProviderKind::OpenAiCompatible),
{
    matches!(provider, ProviderKind::OpenAiCompatible)
}

/// Parsing the wire value of a level gives that level back.
pub proof fn effort_round_trip(e: ReasoningEffort)
    ensures
        parse_effort_spec(effort_name(e)) == Ok::<ReasoningEffort, Seq<char>>(e),
{
    let n = effort_name(e);
    assert(trim(n, CharClass::WhiteSpace) == n);
    assert(ascii_lower(n) =~= n);
}

} // verus!
