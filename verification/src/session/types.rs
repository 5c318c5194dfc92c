//! What a session listing shows of each saved session.
use vstd::prelude::*;

verus! {

/// One row of a `/resume` or `--resume` listing.
#[derive(Debug, Clone, PartialEq)]
pub struct SessionSummary {
    pub path: String,
    pub connection_name: String,
    pub model_name: String,
    pub updated_at: String,
    /// The first user turn, truncated, when the session has one.
    pub first_user_turn_preview: Option<String>,
}

pub open spec fn opt_chars(o: Option<String>) -> Option<Seq<char>> {
    match o {
        Some(s) => Some(s@),
        None => None,
    }
}

/// The mathematical form of a [`SessionSummary`].
pub struct SessionSummaryView {
    pub path: Seq<char>,
    pub connection_name: Seq<char>,
    pub model_name: Seq<char>,
    pub updated_at: Seq<char>,
    pub first_user_turn_preview: Option<Seq<char>>,
}

impl View for SessionSummary {
    type V = SessionSummaryView;

    open spec fn view(&self) -> SessionSummaryView {
        SessionSummaryView {
            path: self.path@,
            connection_name: self.connection_name@,
            model_name: self.model_name@,
            updated_at: self.updated_at@,
            first_user_turn_preview: opt_chars(self.first_user_turn_preview),
        }
    }
}

impl SessionSummary {
    /// A field-for-field copy.
    pub fn copy(&self) -> (r: SessionSummary)
        ensures
            r@ == self@,
    {
        SessionSummary {
            path: self.path.clone(),
            connection_name: self.connection_name.clone(),
            model_name: self.model_name.clone(),
            updated_at: self.updated_at.clone(),
            first_user_turn_preview: match &self.first_user_turn_preview {
                Some(p) => Some(p.clone()),
                None => None,
            },
        }
    }
}

} // verus!
