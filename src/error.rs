use vstd::prelude::*;

verus! {

/// Why a migration could not go on.
#[derive(Debug)]
pub enum MigrateError {
    /// A reference names a project that the host's project graph does not
    /// hold.
    UnknownProject(String),
    /// A reference names a package that no `package.json` of the workspace
    /// declares.
    UnknownPackage(String),
    /// A name is not a valid moon identifier.
    InvalidId(String),
    /// A task reference does not form a valid target.
    InvalidTarget(String),
    /// A declared input is not a valid moon input.
    InvalidInput(String),
    /// A declared output is not a valid moon output.
    InvalidOutput(String),
    /// A declared env file is not a valid relative path.
    InvalidFilePath(String),
}

/// The description of an error: what went wrong, and the value that caused
/// it.
pub open spec fn message_text(e: MigrateError) -> Seq<char> {
    match e {
        MigrateError::UnknownProject(id) => "Unable to migrate task for package "@ + (id@
            + ". Has the project been configured in projects in .moon/workspace.yml?"@),
        MigrateError::UnknownPackage(id) => "Unable to migrate task as package "@ + (id@
            + " does not exist. Is it within the workspace?"@),
        MigrateError::InvalidId(id) => "Invalid identifier: "@ + id@,
        MigrateError::InvalidTarget(t) => "Invalid target: "@ + t@,
        MigrateError::InvalidInput(t) => "Invalid input: "@ + t@,
        MigrateError::InvalidOutput(t) => "Invalid output: "@ + t@,
        MigrateError::InvalidFilePath(t) => "Invalid file path: "@ + t@,
    }
}

impl MigrateError {
    /// A human-readable description of the error, naming the value that
    /// caused it.
    pub fn message(&self) -> (r: String)
        ensures
            r@ == message_text(*self),
    {
        match self {
            MigrateError::UnknownProject(id) => crate::text::concat(
                "Unable to migrate task for package ",
                crate::text::concat(id.as_str(), ". Has the project been configured in projects in .moon/workspace.yml?").as_str(),
            ),
            MigrateError::UnknownPackage(id) => crate::text::concat(
                "Unable to migrate task as package ",
                crate::text::concat(id.as_str(), " does not exist. Is it within the workspace?").as_str(),
            ),
            MigrateError::InvalidId(id) => crate::text::concat("Invalid identifier: ", id.as_str()),
            MigrateError::InvalidTarget(t) => crate::text::concat("Invalid target: ", t.as_str()),
            MigrateError::InvalidInput(t) => crate::text::concat("Invalid input: ", t.as_str()),
            MigrateError::InvalidOutput(t) => crate::text::concat("Invalid output: ", t.as_str()),
            MigrateError::InvalidFilePath(t) => crate::text::concat("Invalid file path: ", t.as_str()),
        }
    }
}

} // verus!
