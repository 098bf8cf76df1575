use vstd::prelude::*;

use crate::text::{chars_eq, chars_of, owned};

verus! {

/// One note an AI agent attached to a range of the old or new side of a file.
pub struct AgentAnnotation {
    pub summary: String,
    pub rationale: Option<String>,
    /// First and last line on the old side.
    pub old_range: Option<(usize, usize)>,
    /// First and last line on the new side.
    pub new_range: Option<(usize, usize)>,
    /// An id, when the agent gives one.
    pub id: Option<String>,
    pub tags: Option<Vec<String>>,
    /// `low`, `medium` or `high`.
    pub confidence: Option<String>,
    pub author: Option<String>,
    /// ISO 8601 creation time.
    pub created_at: Option<String>,
}

/// The agent's notes on one file.
pub struct AgentFileContext {
    pub path: String,
    pub summary: Option<String>,
    pub annotations: Vec<AgentAnnotation>,
}

/// Notes pushed by an AI agent on the files of the diff.
pub struct AgentContext {
    pub version: usize,
    pub summary: Option<String>,
    pub files: Vec<AgentFileContext>,
}

/// A request to move the diff view to a place.
pub struct NavigateContext {
    pub file_path: String,
    pub hunk_number: Option<usize>,
    /// `old` or `new`.
    pub side: Option<String>,
    pub line: Option<usize>,
    /// Move to the next or previous note instead.
    pub comment_direction: Option<String>,
    pub combined_view: Option<bool>,
}

/// What an AI tool asks of the program.
pub enum AcpEvent {
    ApplyNotes(AgentContext),
    Navigate(NavigateContext),
}

impl NavigateContext {
    /// Whether the request says where to go: a note direction, a hunk number, or a side
    /// together with a line.
    pub fn is_actionable(&self) -> (b: bool)
        ensures
            b == (self.comment_direction is Some || self.hunk_number is Some || (self.side is Some && self.line is Some)),
    {
        self.comment_direction.is_some() || self.hunk_number.is_some() || (self.side.is_some() && self.line.is_some())
    }
}

/// The actions of the agent endpoint.
#[derive(Debug, Clone, Copy, PartialEq, Eq, Structural)]
pub enum AcpAction {
    /// `register`: remember the tool's session.
    Register,
    /// `unregister`: forget it.
    Unregister,
    /// `list` or `comment-list`: list the notes.
    List,
    /// `navigate`: move the diff view.
    Navigate,
    /// Anything else: the body may carry notes.
    Other,
}

/// The action named `a`.
pub open spec fn action_of(a: Seq<char>) -> AcpAction {
    if a == "register"@ {
        AcpAction::Register
    } else if a == "unregister"@ {
        AcpAction::Unregister
    } else if a == "list"@ || a == "comment-list"@ {
        AcpAction::List
    } else if a == "navigate"@ {
        AcpAction::Navigate
    } else {
        AcpAction::Other
    }
}

/// Whether two strings are equal.
fn same_text(a: &str, b: &str) -> (r: bool)
    ensures
        r == (a@ == b@),
{
    chars_eq(&chars_of(a), &chars_of(b))
}

/// The action named `action`.
pub fn parse_action(action: &str) -> (r: AcpAction)
    ensures
        r == action_of(action@),
{
    if same_text(action, "register") {
        AcpAction::Register
    } else if same_text(action, "unregister") {
        AcpAction::Unregister
    } else if same_text(action, "list") || same_text(action, "comment-list") {
        AcpAction::List
    } else if same_text(action, "navigate") {
        AcpAction::Navigate
    } else {
        AcpAction::Other
    }
}

/// The session that blocks registering `id`: the registered one, when there is one, it
/// is another, and `force` is not set.
pub fn session_conflict(existing: &Option<String>, id: &str, force: bool) -> (r: Option<String>)
    ensures
        r is Some <==> (existing matches Some(c) && c@ != id@ && !force),
        r matches Some(c) ==> (existing matches Some(e) && c@ == e@),
{
    match existing {
        Some(current) => {
            if !same_text(current.as_str(), id) && !force {
                Some(current.clone())
            } else {
                None
            }
        },
        None => None,
    }
}

/// A setting given as text: none when empty.
pub fn optional_text(s: &str) -> (r: Option<String>)
    ensures
        s@.len() == 0 ==> r is None,
        s@.len() > 0 ==> (r matches Some(t) && t@ == s@),
{
    if s.is_empty() {
        None
    } else {
        Some(owned(s))
    }
}

} // verus!
