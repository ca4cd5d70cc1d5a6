//! The error vocabulary of the resolution cascade. Every failure is fatal to
//! the whole invocation; the variants only say which step failed and why.

use vstd::prelude::*;

verus! {

/// Why a resolution step failed.
#[derive(Clone, Copy, Debug, PartialEq, Eq, Structural)]
pub enum ResolveError {
    /// A raw task record carried no task-definition identifier.
    MissingTaskDefinitionArn,
    /// The task-definition identifier lacked the expected delimiter structure.
    MalformedTaskDefinitionArn,
    /// A raw task record carried no container collection.
    MissingContainers,
    /// A raw task record carried an empty container collection.
    NoContainersInTask,
    /// A raw container record carried no identifier.
    MissingContainerArn,
    /// A raw container record carried no name.
    MissingContainerName,
    /// A raw container record carried no status.
    MissingContainerStatus,
    /// A raw task record carried no task identifier.
    MissingTaskArn,
    /// A raw task record carried no last-status string.
    MissingTaskStatus,
    /// The last-status string was none of the eight known status names.
    UnknownTaskStatus,
    /// An explicitly named container matched neither name nor identifier of
    /// any container in the task.
    ContainerNotFound,
    /// The cluster enumeration returned nothing.
    NoClustersFound,
    /// A cluster identifier lacked the friendly-name delimiter.
    MalformedClusterArn,
    /// The task enumeration returned nothing.
    NoTasksFound,
    /// The orchestration API reported per-item failures.
    UpstreamFailure,
    /// A line of the credential dump had no key/value delimiter.
    MalformedCredentialLine,
    /// The credential dump yielded no usable assignment.
    EmptyCredentialDump,
}

/// The fixed human-readable description of each error.
pub open spec fn error_message(e: ResolveError) -> Seq<char> {
    match e {
        ResolveError::MissingTaskDefinitionArn => "task record has no task definition identifier"@,
        ResolveError::MalformedTaskDefinitionArn => "task definition identifier is malformed"@,
        ResolveError::MissingContainers => "task record has no containers"@,
        ResolveError::NoContainersInTask => "task record has an empty container list"@,
        ResolveError::MissingContainerArn => "container record has no identifier"@,
        ResolveError::MissingContainerName => "container record has no name"@,
        ResolveError::MissingContainerStatus => "container record has no status"@,
        ResolveError::MissingTaskArn => "task record has no task identifier"@,
        ResolveError::MissingTaskStatus => "task record has no status"@,
        ResolveError::UnknownTaskStatus => "task status is not a known status name"@,
        ResolveError::ContainerNotFound => "no container found matching"@,
        ResolveError::NoClustersFound => "no clusters found"@,
        ResolveError::MalformedClusterArn => "cluster identifier is malformed"@,
        ResolveError::NoTasksFound => "no task found"@,
        ResolveError::UpstreamFailure => "the orchestration API reported failures"@,
        ResolveError::MalformedCredentialLine => "credential dump line has no assignment"@,
        ResolveError::EmptyCredentialDump => "credential dump held no assignments"@,
    }
}

impl ResolveError {
    /// The human-readable description of this error.
    pub fn message(self) -> (r: &'static str)
        ensures
            r@ == error_message(self),
    {
        match self {
            ResolveError::MissingTaskDefinitionArn => "task record has no task definition identifier",
            ResolveError::MalformedTaskDefinitionArn => "task definition identifier is malformed",
            ResolveError::MissingContainers => "task record has no containers",
            ResolveError::NoContainersInTask => "task record has an empty container list",
            ResolveError::MissingContainerArn => "container record has no identifier",
            ResolveError::MissingContainerName => "container record has no name",
            ResolveError::MissingContainerStatus => "container record has no status",
            ResolveError::MissingTaskArn => "task record has no task identifier",
            ResolveError::MissingTaskStatus => "task record has no status",
            ResolveError::UnknownTaskStatus => "task status is not a known status name",
            ResolveError::ContainerNotFound => "no container found matching",
            ResolveError::NoClustersFound => "no clusters found",
            ResolveError::MalformedClusterArn => "cluster identifier is malformed",
            ResolveError::NoTasksFound => "no task found",
            ResolveError::UpstreamFailure => "the orchestration API reported failures",
            ResolveError::MalformedCredentialLine => "credential dump line has no assignment",
            ResolveError::EmptyCredentialDump => "credential dump held no assignments",
        }
    }
}

} // verus!
