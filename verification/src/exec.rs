//! The outside programs the daemon runs, and how they end.

use vstd::prelude::*;
use crate::platform::{ErrorModel, PlatformError};
use crate::text::{concat3, lossy, lossy_text, opt_text, texts, trim, trimmed, Text};

verus! {

/// How a program ended.
#[derive(Debug, PartialEq, Eq)]
pub enum CommandOutcome {
    /// It could not be run at all.
    NotRun(PlatformError),
    /// It ran to its end: whether with success, its exit status in words, and
    /// what it printed.
    Exited { success: bool, status: String, stdout: Vec<u8>, stderr: Vec<u8> },
}

/// The value of a [`CommandOutcome`]: what was printed is read as text.
pub enum OutcomeModel {
    NotRun(ErrorModel),
    Exited { success: bool, status: Text, stdout: Text, stderr: Text },
}

impl View for CommandOutcome {
    type V = OutcomeModel;

    open spec fn view(&self) -> OutcomeModel {
        match self {
            CommandOutcome::NotRun(e) => OutcomeModel::NotRun(e@),
            CommandOutcome::Exited { success, status, stdout, stderr } => OutcomeModel::Exited {
                success: *success,
                status: status@,
                stdout: lossy_text(stdout@),
                stderr: lossy_text(stderr@),
            },
        }
    }
}

/// The value of a result.
pub open spec fn outcome_of(r: Result<(), PlatformError>) -> Result<(), ErrorModel> {
    match r {
        Ok(_) => Ok(()),
        Err(e) => Err(e@),
    }
}

/// A program's output, or why there is none.
pub type Output = Result<String, PlatformError>;

/// The value of an [`Output`].
pub open spec fn output_of(r: Output) -> Result<Text, ErrorModel> {
    match r {
        Ok(s) => Ok(s@),
        Err(e) => Err(e@),
    }
}

/// The error a program ended with, if it did not succeed: what it complained
/// of.
pub open spec fn failure_of(outcome: OutcomeModel) -> Option<ErrorModel> {
    match outcome {
        OutcomeModel::NotRun(e) => Some(e),
        OutcomeModel::Exited { success, stderr, .. } => if success {
            None
        } else {
            Some(ErrorModel::CommandFailed(stderr))
        },
    }
}

/// The output of a program; `error` if it ran without success.
pub open spec fn output_or(outcome: OutcomeModel, error: ErrorModel) -> Result<Text, ErrorModel> {
    match outcome {
        OutcomeModel::NotRun(e) => Err(e),
        OutcomeModel::Exited { success, stdout, .. } => if success {
            Ok(stdout)
        } else {
            Err(error)
        },
    }
}

/// What a program complained of, bare of surrounding white space.
pub open spec fn complaint(outcome: OutcomeModel) -> ErrorModel {
    match outcome {
        OutcomeModel::NotRun(e) => e,
        OutcomeModel::Exited { stderr, .. } => ErrorModel::CommandFailed(trimmed(stderr)),
    }
}

/// The error a program ended with, if it did not succeed.
pub fn failure(outcome: CommandOutcome) -> (r: Option<PlatformError>)
    ensures
        failure_of(outcome@) == match r {
            Some(e) => Some(e@),
            None => None,
        },
{
    match outcome {
        CommandOutcome::NotRun(e) => Some(e),
        CommandOutcome::Exited { success, status: _, stdout: _, stderr } => if success {
            None
        } else {
            Some(PlatformError::CommandFailed(lossy(&stderr)))
        },
    }
}

/// The output of a program, if it succeeded; else why not.
pub fn read_output(outcome: CommandOutcome) -> (r: Output)
    ensures
        output_of(r) == output_or(outcome@, complaint(outcome@)),
{
    match outcome {
        CommandOutcome::NotRun(e) => Err(e),
        CommandOutcome::Exited { success, status: _, stdout, stderr } => if success {
            Ok(lossy(&stdout))
        } else {
            Err(PlatformError::CommandFailed(trim(lossy(&stderr).as_str()).to_owned()))
        },
    }
}

/// The output of a program, if it succeeded; `error` if it ran without
/// success.
pub fn output_unless(outcome: CommandOutcome, error: PlatformError) -> (r: Output)
    ensures
        output_of(r) == output_or(outcome@, error@),
{
    match outcome {
        CommandOutcome::NotRun(e) => Err(e),
        CommandOutcome::Exited { success, status: _, stdout, stderr: _ } => if success {
            Ok(lossy(&stdout))
        } else {
            Err(error)
        },
    }
}

/// A program's arguments: `first`, then `second`, then `rest`.
pub fn arguments(first: &str, second: &str, rest: &Vec<String>) -> (r: Vec<String>)
    ensures
        texts(r@) == seq![first@, second@] + texts(rest@),
{
    let mut out: Vec<String> = Vec::new();
    out.push(first.to_owned());
    out.push(second.to_owned());
    let mut i: usize = 0;
    while i < rest.len()
        invariant
            i <= rest.len(),
            out.len() == i + 2,
            out@[0]@ == first@,
            out@[1]@ == second@,
            forall|k: int| 0 <= k < i ==> out@[k + 2]@ == rest@[k]@,
        decreases rest.len() - i,
    {
        out.push(rest[i].clone());
        i += 1;
    }
    assert forall|k: int| 2 <= k < out.len() implies out@[k]@ == rest@[k - 2]@ by {
        assert(out@[(k - 2) + 2]@ == rest@[k - 2]@);
    }
    assert(texts(out@) =~= seq![first@, second@] + texts(rest@));
    out
}

/// The program to run for a tool.
pub open spec fn tool_of(override_value: Option<Text>, default_name: Text) -> Text {
    match override_value {
        Some(path) => path,
        None => default_name,
    }
}

/// The program to run for a tool: the override, if there is one, else its
/// bare name.
pub fn tool_from(override_value: Option<String>, default_name: &str) -> (r: String)
    ensures
        r@ == match opt_text(override_value) {
            Some(path) => path,
            None => default_name@,
        },
        r@ == tool_of(opt_text(override_value), default_name@),
{
    match override_value {
        Some(path) => path,
        None => default_name.to_owned(),
    }
}

/// What to tell the operator about a tool that cannot be found.
pub fn missing_tool(tool_name: &str, capability: &str) -> (r: String)
    ensures
        r@ == "required tool `"@ + tool_name@ + "` not found on PATH; "@ + capability@
            + " cannot work — check the service PATH (or the SPLITWAY_* tool override)"@,
{
    let head = concat3("required tool `", tool_name, "` not found on PATH; ");
    concat3(
        head.as_str(),
        capability,
        " cannot work — check the service PATH (or the SPLITWAY_* tool override)",
    )
}

/// A program that ran with success has no failure and gives its output; any
/// other has one, which tells why it was not run or what it complained of.
pub proof fn law_a_failure_is_told_from_success(outcome: OutcomeModel, error: ErrorModel)
    ensures
        outcome matches OutcomeModel::NotRun(e) ==> failure_of(outcome) == Some(e) && output_or(
            outcome,
            error,
        ) == Err::<Text, ErrorModel>(e),
        outcome matches OutcomeModel::Exited { success, stdout, stderr, .. } ==> {
            &&& success ==> failure_of(outcome) is None && output_or(outcome, error) == Ok::<
                Text,
                ErrorModel,
            >(stdout)
            &&& !success ==> failure_of(outcome) == Some(ErrorModel::CommandFailed(stderr))
                && output_or(outcome, error) == Err::<Text, ErrorModel>(error)
            &&& complaint(outcome) == ErrorModel::CommandFailed(trimmed(stderr))
        },
{
}

/// An override is taken as it is, whatever the tool; without one the tool
/// goes by its name.
pub proof fn law_overrides_are_taken(path: Text, name: Text)
    ensures
        tool_of(Some(path), name) == path,
        tool_of(None, name) == name,
{
}

} // verus!
