//! The settings of the log, and what is written when the process panics.

use vstd::prelude::*;
use vstd::string::*;
use crate::domain::error::{DomainError, DomainErrorView};
use crate::infra::git::path::{join_path, joined_path};
use crate::protocol::{flow_view, read_variable, variable, Flow, FlowView, Reply, ReplyView};
use crate::text::{decimal, decimal_of};

verus! {

/// The environment variable with the level of the log.
pub const ENV_LOG_LEVEL: &'static str = "GIT_WORKFLOW_LOG_LEVEL";

/// The environment variable with the directory of the log.
pub const ENV_LOG_DIR: &'static str = "GIT_WORKFLOW_LOG_DIR";

/// The start of the names of the log files.
pub const FILE_PREFIX: &'static str = "mcp";

/// The end of the names of the log files.
pub const FILE_SUFFIX: &'static str = "log";

/// The file that panics are written to.
pub const PANIC_LOG_NAME: &'static str = "panic.log";

/// A setting counts where it is there and not empty.
pub open spec fn given(value: Option<Seq<char>>) -> bool {
    value is Some && value->0.len() > 0
}

/// Whether a setting counts.
fn is_given(value: &Option<String>) -> (r: bool)
    ensures
        r == given(value.deep_view()),
{
    match value {
        Some(s) => !s.as_str().is_empty(),
        None => false,
    }
}

/// The level of the log: from the command line, or else from the variable of this
/// program, or else from the usual one, or else `warn`. What is empty does not count.
pub open spec fn log_level_flow(
    cli_level: Option<Seq<char>>,
    replies: Seq<ReplyView>,
    at: nat,
) -> FlowView<Seq<char>, DomainErrorView> {
    if given(cli_level) {
        Ok((cli_level->0, at))
    } else {
        match variable(ENV_LOG_LEVEL@, replies, at) {
            Ok((own, n)) => if given(own) {
                Ok((own->0, n))
            } else {
                match variable("RUST_LOG"@, replies, n) {
                    Ok((usual, n)) => if given(usual) {
                        Ok((usual->0, n))
                    } else {
                        Ok(("warn"@, n))
                    },
                    Err(h) => Err(h),
                }
            },
            Err(h) => Err(h),
        }
    }
}

/// The level of the log.
pub fn resolve_log_level(cli_level: Option<&str>, replies: &[Reply], at: usize) -> (r: Flow<
    String,
    DomainError,
>)
    ensures
        flow_view(r) == log_level_flow(cli_level.deep_view(), replies.deep_view(), at as nat),
{
    if let Some(level) = cli_level {
        if !level.is_empty() {
            return Ok((level.to_string(), at));
        }
    }
    let (own, at) = read_variable(ENV_LOG_LEVEL, replies, at)?;
    if is_given(&own) {
        return Ok((own.unwrap(), at));
    }
    let (usual, at) = read_variable("RUST_LOG", replies, at)?;
    if is_given(&usual) {
        return Ok((usual.unwrap(), at));
    }
    Ok(("warn".to_string(), at))
}

/// The directory of the log: from the variable of this program, or else a cache
/// directory under the home directory, or else the current directory. What is empty
/// does not count.
pub open spec fn log_dir_flow(replies: Seq<ReplyView>, at: nat) -> FlowView<
    Seq<char>,
    DomainErrorView,
> {
    match variable(ENV_LOG_DIR@, replies, at) {
        Ok((own, n)) => if given(own) {
            Ok((own->0, n))
        } else {
            match variable("HOME"@, replies, n) {
                Ok((home, n)) => if given(home) {
                    Ok((joined_path(joined_path(home->0, ".cache"@), "git-workflow-mcp"@), n))
                } else {
                    Ok(("."@, n))
                },
                Err(h) => Err(h),
            }
        },
        Err(h) => Err(h),
    }
}

/// The directory of the log.
pub fn resolve_log_dir(replies: &[Reply], at: usize) -> (r: Flow<String, DomainError>)
    ensures
        flow_view(r) == log_dir_flow(replies.deep_view(), at as nat),
{
    let (own, at) = read_variable(ENV_LOG_DIR, replies, at)?;
    if is_given(&own) {
        return Ok((own.unwrap(), at));
    }
    let (home, at) = read_variable("HOME", replies, at)?;
    if is_given(&home) {
        let cache = join_path(home.unwrap().as_str(), ".cache");
        return Ok((join_path(cache.as_str(), "git-workflow-mcp"), at));
    }
    Ok((".".to_string(), at))
}

/// The file that panics are written to, in the directory of the log.
pub fn panic_log_path(log_dir: &str) -> (r: String)
    ensures
        r@ == joined_path(log_dir@, PANIC_LOG_NAME@),
{
    join_path(log_dir, PANIC_LOG_NAME)
}

/// The time as it stands in the log of panics; nothing where the clock is before
/// the start of the epoch.
pub open spec fn timestamp(seconds: Option<u64>) -> Seq<char> {
    match seconds {
        Some(s) => "epoch_s="@ + decimal_of(s as nat),
        None => seq![],
    }
}

/// The time as it stands in the log of panics.
pub fn timestamp_now(seconds: Option<u64>) -> (r: String)
    ensures
        r@ == timestamp(seconds),
{
    match seconds {
        Some(s) => "epoch_s=".to_string().concat(decimal(s).as_str()),
        None => String::new(),
    }
}

/// What is appended to the log of panics: the time, the message and the backtrace.
pub open spec fn panic_record(
    seconds: Option<u64>,
    info: Seq<char>,
    backtrace: Seq<char>,
) -> Seq<char> {
    "["@ + timestamp(seconds) + "] panic: "@ + info + "\n"@ + backtrace + "\n"@
}

/// What is appended to the log of panics.
pub fn panic_entry(seconds: Option<u64>, info: &str, backtrace: &str) -> (r: String)
    ensures
        r@ == panic_record(seconds, info@, backtrace@),
{
    "[".to_string().concat(timestamp_now(seconds).as_str()).concat("] panic: ").concat(info).concat(
        "\n",
    ).concat(backtrace).concat("\n")
}

} // verus!
