//! The plain-text permission prompt: the question asked, and the decision
//! each answer gives. Reading and writing the terminal happen around it.
use vstd::prelude::*;

use crate::permissions::types::{PermissionDecision, PermissionRequest};
use crate::text::{append, chars_of, same, string_from, trim, trimmed, CharClass};

verus! {

/// The question for a request: its description and the three numbered
/// choices.
pub fn question(request: &PermissionRequest) -> (r: String)
    ensures
        r@ == "\nPermission requested: "@ + request.description@
            + "\n  1) Yes\n  2) Yes, don't ask again this session\n  3) No (provide feedback)\n> "@,
{
    let mut m = chars_of("\nPermission requested: ");
    append(&mut m, chars_of(request.description.as_str()).as_slice());
    append(
        &mut m,
        chars_of(
            "\n  1) Yes\n  2) Yes, don't ask again this session\n  3) No (provide feedback)\n> ",
        ).as_slice(),
    );
    string_from(m.as_slice())
}

/// What is asked after any answer but `1` or `2`.
pub fn feedback_question() -> (r: &'static str)
    ensures
        r@ == "Feedback (why not / what to do instead): "@,
{
    "Feedback (why not / what to do instead): "
}

/// The decision an answer gives, trimmed: `1` allows, `2` allows for the
/// rest of the session, and anything else asks for feedback (`None`).
pub fn choice(answer: &str) -> (r: Option<PermissionDecision>)
    ensures
        trim(answer@, CharClass::WhiteSpace) == "1"@ ==> r == Some(PermissionDecision::Allow),
        trim(answer@, CharClass::WhiteSpace) == "2"@ ==> r == Some(
            PermissionDecision::AllowAlwaysThisSession,
        ),
        trim(answer@, CharClass::WhiteSpace) != "1"@ && trim(answer@, CharClass::WhiteSpace)
            != "2"@ ==> r is None,
{
    let t = trimmed(chars_of(answer).as_slice(), &CharClass::WhiteSpace);
    proof {
        reveal_strlit("1");
        reveal_strlit("2");
        assert("1"@[0] != "2"@[0]);
    }
    let one = chars_of("1");
    let two = chars_of("2");
    if same(t.as_slice(), one.as_slice()) {
        Some(PermissionDecision::Allow)
    } else if same(t.as_slice(), two.as_slice()) {
        Some(PermissionDecision::AllowAlwaysThisSession)
    } else {
        None
    }
}

/// The refusal the feedback answer gives: the answer trimmed.
pub fn refusal(feedback: &str) -> (r: PermissionDecision)
    ensures
        r matches PermissionDecision::Deny { feedback: f } && f@ == trim(
            feedback@,
            CharClass::WhiteSpace,
        ),
{
    let t = trimmed(chars_of(feedback).as_slice(), &CharClass::WhiteSpace);
    PermissionDecision::Deny { feedback: string_from(t.as_slice()) }
}

/// The refusal when no answer could be read.
pub fn unreadable_answer() -> (r: PermissionDecision)
    ensures
        r matches PermissionDecision::Deny { feedback: f } && f@
            == "failed to read permission response"@,
{
    PermissionDecision::Deny { feedback: "failed to read permission response".to_owned() }
}

} // verus!
