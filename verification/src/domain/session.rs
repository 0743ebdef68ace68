//! Sessions and what they own.

use vstd::prelude::*;

verus! {

/// Lower-case hexadecimal digits.
pub open spec fn is_hex(c: char) -> bool {
    '0' <= c <= '9' || 'a' <= c <= 'f'
}

/// The shape of a random identifier of version four: five groups of lower-case
/// hexadecimal digits with hyphens between them, the version in the third
/// group, the variant in the fourth.
pub open spec fn is_uuid_v4(s: Seq<char>) -> bool {
    &&& s.len() == 36
    &&& s[8] == '-' && s[13] == '-' && s[18] == '-' && s[23] == '-'
    &&& s[14] == '4'
    &&& s[19] == '8' || s[19] == '9' || s[19] == 'a' || s[19] == 'b'
    &&& forall|i: int|
        0 <= i < 36 && i != 8 && i != 13 && i != 18 && i != 23 ==> is_hex(#[trigger] s[i])
}

/// `uuid::Uuid::new_v4` draws random bits, sets the version and the variant in
/// them, and its `Display` writes them as hyphenated lower-case hexadecimal digits.
/// Which digits come out is chance: nothing is said of them beyond their shape. It
/// panics where the operating system has no random numbers to give.
#[verifier::external_body]
fn random_uuid() -> (s: String)
    ensures
        is_uuid_v4(s@),
{
    uuid::Uuid::new_v4().to_string()
}

/// The identifier of a session. One is drawn for each connection and recorded
/// with each worktree that the session makes.
#[derive(Debug, PartialEq, Eq, Hash)]
pub struct SessionId(String);

impl View for SessionId {
    type V = Seq<char>;

    closed spec fn view(&self) -> Seq<char> {
        self.0@
    }
}

impl DeepView for SessionId {
    type V = Seq<char>;

    open spec fn deep_view(&self) -> Seq<char> {
        self@
    }
}

impl SessionId {
    /// Draws a new identifier.
    pub fn new() -> (r: Self)
        ensures
            is_uuid_v4(r@),
    {
        SessionId(random_uuid())
    }

    /// The identifier that was recorded as `s`.
    pub fn recorded(s: String) -> (r: Self)
        ensures
            r@ == s@,
    {
        SessionId(s)
    }

    /// The text of the identifier.
    pub fn as_str(&self) -> (r: &str)
        ensures
            r@ == self@,
    {
        self.0.as_str()
    }

    /// The text of the identifier.
    pub fn to_string(&self) -> (r: String)
        ensures
            r@ == self@,
    {
        self.0.clone()
    }

    /// Whether two identifiers are the same.
    pub fn same(&self, other: &SessionId) -> (r: bool)
        ensures
            r == (self@ == other@),
    {
        self.0 == other.0
    }
}

impl Clone for SessionId {
    fn clone(&self) -> (r: Self)
        ensures
            r@ == self@,
    {
        SessionId(self.0.clone())
    }
}

/// The record that ties a worktree to the session that made it.
#[derive(Debug)]
pub struct WorktreeSession {
    pub worktree_name: String,
    pub branch: String,
    pub session_id: SessionId,
    pub created_at: String,
}

/// A [`WorktreeSession`] over character sequences.
pub struct WorktreeSessionView {
    pub worktree_name: Seq<char>,
    pub branch: Seq<char>,
    pub session_id: Seq<char>,
    pub created_at: Seq<char>,
}

impl DeepView for WorktreeSession {
    type V = WorktreeSessionView;

    open spec fn deep_view(&self) -> WorktreeSessionView {
        WorktreeSessionView {
            worktree_name: self.worktree_name@,
            branch: self.branch@,
            session_id: self.session_id@,
            created_at: self.created_at@,
        }
    }
}

impl Clone for WorktreeSession {
    fn clone(&self) -> (r: Self)
        ensures
            r.deep_view() == self.deep_view(),
    {
        WorktreeSession {
            worktree_name: self.worktree_name.clone(),
            branch: self.branch.clone(),
            session_id: self.session_id.clone(),
            created_at: self.created_at.clone(),
        }
    }
}

} // verus!
