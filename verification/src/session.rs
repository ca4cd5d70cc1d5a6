//! Builders for the exact command lines handed to the external tools: the
//! vault executable and the provider's own CLI. Spawning them happens
//! outside the library.

use vstd::prelude::*;

verus! {

/// The vault invocation that logs a profile in.
pub fn login_command(profile_name: &str) -> (r: String)
    ensures
        r@ == "aws-vault login "@ + profile_name@,
{
    let mut r = String::from_str("aws-vault login ");
    r.append(profile_name);
    r
}

/// The vault invocation whose captured output is the credential dump: the
/// profile's credential-injected subshell prints every `AWS_`-prefixed
/// variable of its environment.
pub fn credential_dump_command(profile_name: &str) -> (r: String)
    ensures
        r@ == "aws-vault exec "@ + profile_name@ + " -- env | grep AWS_"@,
{
    let mut r = String::from_str("aws-vault exec ");
    r.append(profile_name);
    r.append(" -- env | grep AWS_");
    r
}

/// The provider-CLI invocation that opens an interactive shell inside the
/// resolved container.
pub fn execute_session_command(cluster: &str, task_arn: &str, container_name: &str) -> (r: String)
    ensures
        r@ == "aws ecs execute-command --cluster "@ + cluster@ + " --task "@ + task_arn@
            + " --container "@ + container_name@
            + " --command \"/usr/bin/env bash\" --interactive"@,
{
    let mut r = String::from_str("aws ecs execute-command --cluster ");
    r.append(cluster);
    r.append(" --task ");
    r.append(task_arn);
    r.append(" --container ");
    r.append(container_name);
    r.append(" --command \"/usr/bin/env bash\" --interactive");
    r
}

} // verus!
