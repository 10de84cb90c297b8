//! What can go wrong while a standalone binary is built.

use vstd::prelude::*;
use vstd::string::StringExecFns;

verus! {

/// An error of building a standalone binary. Each carries the text of
/// what it is about: the target or the file that was not found, or the
/// words of the error that a download, an archive, a task or the file
/// system gave.
#[derive(Debug, PartialEq, Eq)]
pub enum BuildError {
    ReleaseTargetNotFound(String),
    ZippedBinaryNotFound(String),
    Download(String),
    Unzip(String),
    UnzipJoin(String),
    IoError(String),
}

/// What a step of building a standalone binary gives.
pub type BuildResult<T> = Result<T, BuildError>;

/// The text of an error.
pub open spec fn build_error_text(error: BuildError) -> Seq<char> {
    match error {
        BuildError::ReleaseTargetNotFound(target) => "failed to find luneweb target '"@ + target@
            + "' in GitHub release"@,
        BuildError::ZippedBinaryNotFound(name) => "failed to find luneweb binary '"@ + name@
            + "' in downloaded zip file"@,
        BuildError::Download(cause) => "failed to download luneweb binary: "@ + cause@,
        BuildError::Unzip(cause) => "failed to unzip luneweb binary: "@ + cause@,
        BuildError::UnzipJoin(cause) => "panicked while unzipping luneweb binary: "@ + cause@,
        BuildError::IoError(cause) => "io error: "@ + cause@,
    }
}

/// `before`, `middle` and `after` in one text.
fn framed(before: &str, middle: &String, after: &str) -> (text: String)
    ensures
        text@ == before@ + middle@ + after@,
{
    let mut text = before.to_owned();
    text.append(middle.as_str());
    text.append(after);
    text
}

/// `before` and `cause` in one text.
fn prefixed(before: &str, cause: &String) -> (text: String)
    ensures
        text@ == before@ + cause@,
{
    let mut text = before.to_owned();
    text.append(cause.as_str());
    text
}

impl BuildError {
    /// The error as the text that the user is shown.
    pub fn message(&self) -> (text: String)
        ensures
            text@ == build_error_text(*self),
    {
        match self {
            BuildError::ReleaseTargetNotFound(target) => framed(
                "failed to find luneweb target '",
                target,
                "' in GitHub release",
            ),
            BuildError::ZippedBinaryNotFound(name) => framed(
                "failed to find luneweb binary '",
                name,
                "' in downloaded zip file",
            ),
            BuildError::Download(cause) => prefixed("failed to download luneweb binary: ", cause),
            BuildError::Unzip(cause) => prefixed("failed to unzip luneweb binary: ", cause),
            BuildError::UnzipJoin(cause) => prefixed(
                "panicked while unzipping luneweb binary: ",
                cause,
            ),
            BuildError::IoError(cause) => prefixed("io error: ", cause),
        }
    }
}

} // verus!
