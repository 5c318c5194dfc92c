//! What `/init` asks the model, and which answers it accepts as the new
//! `AGENTS.md`.
use vstd::prelude::*;

use crate::text::{chars_of, trim, trimmed, CharClass};

verus! {

/// The system instruction for generating `AGENTS.md`.
pub fn init_system_prompt() -> (r: &'static str)
    ensures
        r@ == "You are generating an AGENTS.md file for a coding project. Be concrete and specific to the project you're shown, not generic boilerplate."@,
{
    "You are generating an AGENTS.md file for a coding project. Be concrete and specific to the project you're shown, not generic boilerplate."
}

/// Why a generated `AGENTS.md` was not accepted.
#[derive(Debug, Clone, Copy, PartialEq, Eq, Structural)]
pub enum GenerateRefusal {
    /// The model's answer was blank: an existing `AGENTS.md` is kept.
    EmptyResponse,
}

impl GenerateRefusal {
    pub fn message(&self) -> (r: &'static str)
        ensures
            r@ == "model returned an empty response; AGENTS.md left unchanged"@,
    {
        "model returned an empty response; AGENTS.md left unchanged"
    }
}

/// The model's answer becomes `AGENTS.md` as it is, unless it is blank.
pub fn accept_generated(text: String) -> (r: Result<String, GenerateRefusal>)
    ensures
        trim(text@, CharClass::WhiteSpace).len() == 0 ==> r == Err::<String, GenerateRefusal>(
            GenerateRefusal::EmptyResponse,
        ),
        trim(text@, CharClass::WhiteSpace).len() > 0 ==> (r matches Ok(t) && t@ == text@),
{
    if trimmed(chars_of(text.as_str()).as_slice(), &CharClass::WhiteSpace).len() == 0 {
        Err(GenerateRefusal::EmptyResponse)
    } else {
        Ok(text)
    }
}

} // verus!
