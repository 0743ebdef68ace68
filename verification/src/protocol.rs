//! How an operation talks to the world.
//!
//! An operation never touches the world itself. It is a function of the replies
//! that came in so far: given those, it asks for one more action, or it is done.
//! Whoever drives it performs the action and calls it again with the reply
//! appended. The replies that an operation reads start at an index, and an
//! operation that is done says which index comes next, so that operations can
//! be put one behind the other.

use vstd::prelude::*;
use vstd::string::*;
use vstd::utf8::*;
use crate::domain::error::{DomainError, DomainErrorView};
use crate::domain::session::{WorktreeSession, WorktreeSessionView};
use crate::text::{trim, trimmed};

verus! {

/// Something that an operation wants done.
#[derive(Debug)]
pub enum Action {
    /// Run git in a directory.
    Git { dir: String, args: Vec<String> },
    /// Find out whether anything is at a path.
    PathExists { path: String },
    /// Find out whether a directory is at a path.
    IsDirectory { path: String },
    /// Resolve a path to its one absolute form.
    Canonicalize { path: String },
    /// Make a path absolute: as it stands where it is absolute already, and else from
    /// the current directory.
    MakeAbsolute { path: String },
    /// Read an environment variable.
    ReadVariable { name: String },
    /// Read the clock.
    ReadClock,
    /// Make a directory and those above it.
    CreateDirAll { path: String },
    /// Open the lock file, making it where it is missing.
    OpenLock { path: String },
    /// Wait for the exclusive lock on the open lock file.
    LockExclusive { path: String },
    /// Give the lock up and close the lock file.
    Unlock { path: String },
    /// Read the session records in a file.
    ReadSessions { path: String },
    /// Replace the session records in a file.
    WriteSessions { path: String, sessions: Vec<WorktreeSession> },
}

/// An [`Action`] over character sequences.
pub enum ActionView {
    Git { dir: Seq<char>, args: Seq<Seq<char>> },
    PathExists { path: Seq<char> },
    IsDirectory { path: Seq<char> },
    Canonicalize { path: Seq<char> },
    MakeAbsolute { path: Seq<char> },
    ReadVariable { name: Seq<char> },
    ReadClock,
    CreateDirAll { path: Seq<char> },
    OpenLock { path: Seq<char> },
    LockExclusive { path: Seq<char> },
    Unlock { path: Seq<char> },
    ReadSessions { path: Seq<char> },
    WriteSessions { path: Seq<char>, sessions: Seq<WorktreeSessionView> },
}

impl DeepView for Action {
    type V = ActionView;

    open spec fn deep_view(&self) -> ActionView {
        match self {
            Action::Git { dir, args } => ActionView::Git { dir: dir@, args: args.deep_view() },
            Action::PathExists { path } => ActionView::PathExists { path: path@ },
            Action::IsDirectory { path } => ActionView::IsDirectory { path: path@ },
            Action::Canonicalize { path } => ActionView::Canonicalize { path: path@ },
            Action::MakeAbsolute { path } => ActionView::MakeAbsolute { path: path@ },
            Action::ReadVariable { name } => ActionView::ReadVariable { name: name@ },
            Action::ReadClock => ActionView::ReadClock,
            Action::CreateDirAll { path } => ActionView::CreateDirAll { path: path@ },
            Action::OpenLock { path } => ActionView::OpenLock { path: path@ },
            Action::LockExclusive { path } => ActionView::LockExclusive { path: path@ },
            Action::Unlock { path } => ActionView::Unlock { path: path@ },
            Action::ReadSessions { path } => ActionView::ReadSessions { path: path@ },
            Action::WriteSessions { path, sessions } => ActionView::WriteSessions {
                path: path@,
                sessions: sessions.deep_view(),
            },
        }
    }
}

/// What a command left behind.
#[derive(Debug)]
pub struct CommandOutput {
    /// The exit code, where the command ended by itself.
    pub code: Option<i32>,
    pub stdout: String,
    pub stderr: String,
}

/// A [`CommandOutput`] over character sequences.
pub struct CommandOutputView {
    pub code: Option<i32>,
    pub stdout: Seq<char>,
    pub stderr: Seq<char>,
}

impl DeepView for CommandOutput {
    type V = CommandOutputView;

    open spec fn deep_view(&self) -> CommandOutputView {
        CommandOutputView { code: self.code, stdout: self.stdout@, stderr: self.stderr@ }
    }
}

/// What `String::from_utf8_lossy` makes of bytes.
pub uninterp spec fn lossy_text(bytes: Seq<u8>) -> Seq<char>;

/// `String::from_utf8_lossy` of the standard library decodes UTF-8 and puts the
/// replacement character in place of what is none. The contract names its result
/// and says that bytes which are valid UTF-8 are decoded as they stand; where the
/// replacement characters go is left to the name.
#[verifier::external_body]
fn from_utf8_lossy(bytes: &[u8]) -> (s: String)
    ensures
        s@ == lossy_text(bytes@),
        valid_utf8(bytes@) ==> s@ == decode_utf8(bytes@),
{
    String::from_utf8_lossy(bytes).into_owned()
}

impl CommandOutput {
    /// What a command left behind, from the bytes of its two streams.
    pub fn decode(code: Option<i32>, stdout: &[u8], stderr: &[u8]) -> (r: CommandOutput)
        ensures
            r.deep_view() == (CommandOutputView {
                code,
                stdout: lossy_text(stdout@),
                stderr: lossy_text(stderr@),
            }),
            valid_utf8(stdout@) ==> r.stdout@ == decode_utf8(stdout@),
            valid_utf8(stderr@) ==> r.stderr@ == decode_utf8(stderr@),
    {
        CommandOutput { code, stdout: from_utf8_lossy(stdout), stderr: from_utf8_lossy(stderr) }
    }
}

/// The answer to an action.
#[derive(Debug)]
pub enum Reply {
    /// The command ran.
    Output(CommandOutput),
    /// Yes or no.
    Flag(bool),
    /// A path, resolved or made absolute.
    Path(String),
    /// The value of an environment variable, where it is set to Unicode text.
    Variable(Option<String>),
    /// The seconds since the start of the epoch, where the clock is past it.
    Clock(Option<u64>),
    /// The action is done.
    Completed,
    /// Session records.
    Sessions(Vec<WorktreeSession>),
    /// The operating system refused; its message.
    Failed(String),
    /// Session records could not be brought out of or into text; why.
    Malformed(String),
}

/// A [`Reply`] over character sequences.
pub enum ReplyView {
    Output(CommandOutputView),
    Flag(bool),
    Path(Seq<char>),
    Variable(Option<Seq<char>>),
    Clock(Option<u64>),
    Completed,
    Sessions(Seq<WorktreeSessionView>),
    Failed(Seq<char>),
    Malformed(Seq<char>),
}

impl DeepView for Reply {
    type V = ReplyView;

    open spec fn deep_view(&self) -> ReplyView {
        match self {
            Reply::Output(o) => ReplyView::Output(o.deep_view()),
            Reply::Flag(b) => ReplyView::Flag(*b),
            Reply::Path(p) => ReplyView::Path(p@),
            Reply::Variable(v) => ReplyView::Variable(v.deep_view()),
            Reply::Clock(c) => ReplyView::Clock(*c),
            Reply::Completed => ReplyView::Completed,
            Reply::Sessions(s) => ReplyView::Sessions(s.deep_view()),
            Reply::Failed(e) => ReplyView::Failed(e@),
            Reply::Malformed(e) => ReplyView::Malformed(e@),
        }
    }
}

/// Whether `r` is an answer of the kind that `a` asks for.
pub open spec fn answers(a: ActionView, r: ReplyView) -> bool {
    match a {
        ActionView::Git { .. } => r is Output || r is Failed,
        ActionView::PathExists { .. } | ActionView::IsDirectory { .. } => r is Flag,
        ActionView::Canonicalize { .. } | ActionView::MakeAbsolute { .. } => r is Path
            || r is Failed,
        ActionView::ReadVariable { .. } => r is Variable,
        ActionView::ReadClock => r is Clock,
        ActionView::CreateDirAll { .. }
        | ActionView::OpenLock { .. }
        | ActionView::LockExclusive { .. }
        | ActionView::Unlock { .. } => r is Completed || r is Failed,
        ActionView::ReadSessions { .. } => r is Sessions || r is Failed || r is Malformed,
        ActionView::WriteSessions { .. } => r is Completed || r is Failed || r is Malformed,
    }
}

/// Why an operation has no result yet, or will have none.
#[derive(Debug)]
pub enum Halt<E> {
    /// The replies are used up: perform this action and append the answer.
    Ask(Action),
    /// A reply is not of the kind that the action before it asks for.
    Mismatch,
    /// The operation failed; the next reply would be the one at that index.
    Fail(E, usize),
}

/// A [`Halt`] over character sequences.
pub enum HaltView<E> {
    Ask(ActionView),
    Mismatch,
    Fail(E, nat),
}

/// What an operation comes to on the replies so far: its value and the index of
/// the reply behind the last that it read, or why there is no value.
pub type Flow<T, E> = Result<(T, usize), Halt<E>>;

/// A [`Flow`] over character sequences.
pub type FlowView<T, E> = Result<(T, nat), HaltView<E>>;

/// A [`Halt`] over character sequences.
pub open spec fn halt_view<E: DeepView>(h: Halt<E>) -> HaltView<E::V> {
    match h {
        Halt::Ask(a) => HaltView::Ask(a.deep_view()),
        Halt::Mismatch => HaltView::Mismatch,
        Halt::Fail(e, n) => HaltView::Fail(e.deep_view(), n as nat),
    }
}

/// A [`Flow`] over character sequences.
pub open spec fn flow_view<T: DeepView, E: DeepView>(f: Flow<T, E>) -> FlowView<T::V, E::V> {
    match f {
        Ok((v, n)) => Ok((v.deep_view(), n as nat)),
        Err(h) => Err(halt_view(h)),
    }
}

// ---------------------------------------------------------------------------
// Single actions
// ---------------------------------------------------------------------------

/// The reply at `at` if it is there, and the question for it if not.
pub open spec fn replied<E>(a: ActionView, replies: Seq<ReplyView>, at: nat) -> Result<
    ReplyView,
    HaltView<E>,
> {
    if at < replies.len() {
        Ok(replies[at as int])
    } else {
        Err(HaltView::Ask(a))
    }
}

/// The reply at `at` if it is there, and the question for it if not.
pub fn reply_to<'a, E: DeepView>(a: Action, replies: &'a [Reply], at: usize) -> (r: Result<
    &'a Reply,
    Halt<E>,
>)
    ensures
        match r {
            Ok(x) => at < usize::MAX && at < replies@.len() && *x == replies@[at as int]
                && replied::<E::V>(a.deep_view(), replies.deep_view(), at as nat) == Ok::<
                _,
                HaltView<E::V>,
            >(x.deep_view()),
            Err(h) => replied::<E::V>(a.deep_view(), replies.deep_view(), at as nat)
                == Err::<ReplyView, _>(halt_view(h)),
        },
{
    if at < replies.len() {
        Ok(&replies[at])
    } else {
        Err(Halt::Ask(a))
    }
}

/// Whether the command ended with exit code zero.
pub open spec fn succeeded(o: CommandOutputView) -> bool {
    o.code == Some(0i32)
}

/// What a command prints, without the white space around it, or, where it did not
/// succeed, what it complains of.
pub open spec fn outcome(o: CommandOutputView) -> Result<Seq<char>, DomainErrorView> {
    if succeeded(o) {
        Ok(trimmed(o.stdout))
    } else {
        Err(DomainErrorView::Git(trimmed(o.stderr)))
    }
}

/// The action of running git.
pub open spec fn git(dir: Seq<char>, args: Seq<Seq<char>>) -> ActionView {
    ActionView::Git { dir, args }
}

/// Running git for what it prints.
pub open spec fn git_text(
    dir: Seq<char>,
    args: Seq<Seq<char>>,
    replies: Seq<ReplyView>,
    at: nat,
) -> FlowView<Seq<char>, DomainErrorView> {
    match replied(git(dir, args), replies, at) {
        Ok(ReplyView::Output(o)) => match outcome(o) {
            Ok(s) => Ok((s, at + 1)),
            Err(e) => Err(HaltView::Fail(e, at + 1)),
        },
        Ok(ReplyView::Failed(e)) => Err(HaltView::Fail(DomainErrorView::Io(e), at + 1)),
        Ok(_) => Err(HaltView::Mismatch),
        Err(h) => Err(h),
    }
}

/// Runs git in `dir` for what it prints.
pub fn run_git(dir: &str, args: Vec<String>, replies: &[Reply], at: usize) -> (r: Flow<
    String,
    DomainError,
>)
    ensures
        flow_view(r) == git_text(dir@, args.deep_view(), replies.deep_view(), at as nat),
{
    match reply_to(Action::Git { dir: dir.to_string(), args }, replies, at)? {
        Reply::Output(o) => if o.code == Some(0) {
            Ok((trim(o.stdout.as_str()), at + 1))
        } else {
            Err(Halt::Fail(DomainError::Git(trim(o.stderr.as_str())), at + 1))
        },
        Reply::Failed(e) => Err(Halt::Fail(DomainError::Io(e.clone()), at + 1)),
        _ => Err(Halt::Mismatch),
    }
}

/// A question that is answered by yes or no.
pub open spec fn flag<E>(a: ActionView, replies: Seq<ReplyView>, at: nat) -> FlowView<bool, E> {
    match replied(a, replies, at) {
        Ok(ReplyView::Flag(b)) => Ok((b, at + 1)),
        Ok(_) => Err(HaltView::Mismatch),
        Err(h) => Err(h),
    }
}

/// Asks a question that is answered by yes or no.
pub fn ask_flag<E: DeepView>(a: Action, replies: &[Reply], at: usize) -> (r: Flow<bool, E>)
    ensures
        flow_view(r) == flag::<E::V>(a.deep_view(), replies.deep_view(), at as nat),
{
    match reply_to(a, replies, at)? {
        Reply::Flag(b) => Ok((*b, at + 1)),
        _ => Err(Halt::Mismatch),
    }
}

/// Resolving a path. That it cannot be resolved is an answer, not a failure.
pub open spec fn canonical(path: Seq<char>, replies: Seq<ReplyView>, at: nat) -> FlowView<
    Result<Seq<char>, Seq<char>>,
    DomainErrorView,
> {
    match replied(ActionView::Canonicalize { path }, replies, at) {
        Ok(ReplyView::Path(p)) => Ok((Ok(p), at + 1)),
        Ok(ReplyView::Failed(e)) => Ok((Err(e), at + 1)),
        Ok(_) => Err(HaltView::Mismatch),
        Err(h) => Err(h),
    }
}

/// A resolved path, or the message why there is none.
#[derive(Debug)]
pub enum Resolved {
    Path(String),
    Unresolved(String),
}

impl DeepView for Resolved {
    type V = Result<Seq<char>, Seq<char>>;

    open spec fn deep_view(&self) -> Result<Seq<char>, Seq<char>> {
        match self {
            Resolved::Path(p) => Ok(p@),
            Resolved::Unresolved(e) => Err(e@),
        }
    }
}

/// Resolves a path.
pub fn canonicalize(path: &str, replies: &[Reply], at: usize) -> (r: Flow<Resolved, DomainError>)
    ensures
        flow_view(r) == canonical(path@, replies.deep_view(), at as nat),
{
    match reply_to(Action::Canonicalize { path: path.to_string() }, replies, at)? {
        Reply::Path(p) => Ok((Resolved::Path(p.clone()), at + 1)),
        Reply::Failed(e) => Ok((Resolved::Unresolved(e.clone()), at + 1)),
        _ => Err(Halt::Mismatch),
    }
}

/// Reading an environment variable.
pub open spec fn variable(name: Seq<char>, replies: Seq<ReplyView>, at: nat) -> FlowView<
    Option<Seq<char>>,
    DomainErrorView,
> {
    match replied(ActionView::ReadVariable { name }, replies, at) {
        Ok(ReplyView::Variable(v)) => Ok((v, at + 1)),
        Ok(_) => Err(HaltView::Mismatch),
        Err(h) => Err(h),
    }
}

/// Reads an environment variable.
pub fn read_variable(name: &str, replies: &[Reply], at: usize) -> (r: Flow<
    Option<String>,
    DomainError,
>)
    ensures
        flow_view(r) == variable(name@, replies.deep_view(), at as nat),
{
    match reply_to(Action::ReadVariable { name: name.to_string() }, replies, at)? {
        Reply::Variable(v) => {
            let value = match v {
                Some(s) => Some(s.clone()),
                None => None,
            };
            Ok((value, at + 1))
        },
        _ => Err(Halt::Mismatch),
    }
}

/// Having something done. The message of a refusal is an answer, not a failure.
pub open spec fn effect(a: ActionView, replies: Seq<ReplyView>, at: nat) -> FlowView<
    Option<Seq<char>>,
    DomainErrorView,
> {
    match replied(a, replies, at) {
        Ok(ReplyView::Completed) => Ok((None, at + 1)),
        Ok(ReplyView::Failed(e)) => Ok((Some(e), at + 1)),
        Ok(_) => Err(HaltView::Mismatch),
        Err(h) => Err(h),
    }
}

/// Has something done, and gives back the message of a refusal.
pub fn perform(a: Action, replies: &[Reply], at: usize) -> (r: Flow<Option<String>, DomainError>)
    ensures
        flow_view(r) == effect(a.deep_view(), replies.deep_view(), at as nat),
{
    match reply_to(a, replies, at)? {
        Reply::Completed => Ok((None, at + 1)),
        Reply::Failed(e) => Ok((Some(e.clone()), at + 1)),
        _ => Err(Halt::Mismatch),
    }
}

/// Reading the clock.
pub open spec fn clock(replies: Seq<ReplyView>, at: nat) -> FlowView<Option<u64>, DomainErrorView> {
    match replied(ActionView::ReadClock, replies, at) {
        Ok(ReplyView::Clock(c)) => Ok((c, at + 1)),
        Ok(_) => Err(HaltView::Mismatch),
        Err(h) => Err(h),
    }
}

/// Reads the clock.
pub fn read_clock(replies: &[Reply], at: usize) -> (r: Flow<Option<u64>, DomainError>)
    ensures
        flow_view(r) == clock(replies.deep_view(), at as nat),
{
    match reply_to(Action::ReadClock, replies, at)? {
        Reply::Clock(c) => Ok((*c, at + 1)),
        _ => Err(Halt::Mismatch),
    }
}

} // verus!
