use ecs_exec::cli::{Cli, Commands};
use ecs_exec::credentials::parse_env_dump;
use ecs_exec::errors::ResolveError;
use ecs_exec::resolve::{
    choose_container, cluster_menu, ensure_no_failures, first_task_from_raw, profile_menu,
    sort_strings, sort_tasks, task_menu_labels, tasks_from_raw, ContainerResolution,
};
use ecs_exec::session::{credential_dump_command, execute_session_command, login_command};
use ecs_exec::strutil::{find_substr, str_lex_le};
use ecs_exec::task::{Container, RawContainer, RawTask, Task, TaskStatus};

fn raw_container(arn: &str, name: &str, status: &str) -> RawContainer {
    RawContainer {
        container_arn: Some(arn.to_string()),
        name: Some(name.to_string()),
        last_status: Some(status.to_string()),
    }
}

fn raw_task(def_arn: &str, arn: &str, status: &str, containers: Vec<RawContainer>) -> RawTask {
    RawTask {
        task_definition_arn: Some(def_arn.to_string()),
        task_arn: Some(arn.to_string()),
        last_status: Some(status.to_string()),
        containers: Some(containers),
    }
}

fn container(arn: &str, name: &str, status: &str) -> Container {
    Container { arn: arn.to_string(), name: name.to_string(), status: status.to_string() }
}

fn task_with_containers(containers: Vec<Container>) -> Task {
    Task {
        name: "my-task".to_string(),
        arn: "arn:...:task/cluster/abc123".to_string(),
        containers,
        status: TaskStatus::RUNNING,
    }
}

#[test]
fn container_pretty_running_is_name_alone() {
    let c = container("c1", "web", "RUNNING");
    assert_eq!(c.pretty(), "web");
}

#[test]
fn container_pretty_other_status_appends_status() {
    let c = container("c1", "web", "STOPPED");
    assert_eq!(c.pretty(), "web STOPPED");
    let c = container("c1", "web", "running");
    assert_eq!(c.pretty(), "web running");
}

#[test]
fn status_suffix_empty_only_for_running() {
    assert_eq!(TaskStatus::RUNNING.pretty_status(), "");
    assert_eq!(TaskStatus::PROVISIONING.pretty_status(), " PROVISIONING");
    assert_eq!(TaskStatus::PENDING.pretty_status(), " PENDING");
    assert_eq!(TaskStatus::ACTIVATING.pretty_status(), " ACTIVATING");
    assert_eq!(TaskStatus::DEACTIVATING.pretty_status(), " DEACTIVATING");
    assert_eq!(TaskStatus::STOPPING.pretty_status(), " STOPPING");
    assert_eq!(TaskStatus::DEPROVISIONING.pretty_status(), " DEPROVISIONING");
    assert_eq!(TaskStatus::STOPPED.pretty_status(), " STOPPED");
}

#[test]
fn status_parse_accepts_exactly_the_eight_names() {
    assert_eq!(TaskStatus::parse("PROVISIONING"), Some(TaskStatus::PROVISIONING));
    assert_eq!(TaskStatus::parse("PENDING"), Some(TaskStatus::PENDING));
    assert_eq!(TaskStatus::parse("ACTIVATING"), Some(TaskStatus::ACTIVATING));
    assert_eq!(TaskStatus::parse("RUNNING"), Some(TaskStatus::RUNNING));
    assert_eq!(TaskStatus::parse("DEACTIVATING"), Some(TaskStatus::DEACTIVATING));
    assert_eq!(TaskStatus::parse("STOPPING"), Some(TaskStatus::STOPPING));
    assert_eq!(TaskStatus::parse("DEPROVISIONING"), Some(TaskStatus::DEPROVISIONING));
    assert_eq!(TaskStatus::parse("STOPPED"), Some(TaskStatus::STOPPED));
    assert_eq!(TaskStatus::parse("running"), None);
    assert_eq!(TaskStatus::parse("Running"), None);
    assert_eq!(TaskStatus::parse(""), None);
}

#[test]
fn well_formed_record_converts_and_renders() {
    let raw = raw_task(
        "arn:...:task-definition/my-task:7",
        "arn:...:task/cluster/abc123",
        "RUNNING",
        vec![raw_container("c1", "web", "RUNNING")],
    );
    let task = Task::from_raw(&raw).expect("conversion should succeed");
    assert_eq!(task.name, "my-task");
    assert_eq!(task.arn, "arn:...:task/cluster/abc123");
    assert_eq!(task.status, TaskStatus::RUNNING);
    assert_eq!(task.containers.len(), 1);
    assert_eq!(task.containers[0].name, "web");
    assert_eq!(task.containers[0].arn, "c1");
    assert_eq!(task.containers[0].status, "RUNNING");
    assert_eq!(task.friendly_output(), "my-task (arn:...:task/cluster/abc123) [web]");
}

#[test]
fn friendly_output_shows_status_and_all_containers() {
    let raw = raw_task(
        "arn:aws:ecs:eu-west-1:123:task-definition/api:12",
        "arn:aws:ecs:eu-west-1:123:task/prod/deadbeef",
        "STOPPED",
        vec![raw_container("c1", "api", "RUNNING"), raw_container("c2", "sidecar", "STOPPED")],
    );
    let task = Task::from_raw(&raw).expect("conversion should succeed");
    assert_eq!(
        task.friendly_output(),
        "api STOPPED (arn:aws:ecs:eu-west-1:123:task/prod/deadbeef) [api, sidecar STOPPED]"
    );
}

#[test]
fn conversion_fails_without_task_definition_arn() {
    let mut raw = raw_task("d", "a", "RUNNING", vec![raw_container("c1", "web", "RUNNING")]);
    raw.task_definition_arn = None;
    assert_eq!(Task::from_raw(&raw).unwrap_err(), ResolveError::MissingTaskDefinitionArn);
}

#[test]
fn conversion_fails_on_malformed_task_definition_arn() {
    let raw = raw_task(
        "arn:aws:ecs:eu-west-1:123:task/my-task:7",
        "a",
        "RUNNING",
        vec![raw_container("c1", "web", "RUNNING")],
    );
    assert_eq!(Task::from_raw(&raw).unwrap_err(), ResolveError::MalformedTaskDefinitionArn);
}

#[test]
fn conversion_fails_without_containers() {
    let mut raw = raw_task(
        "x:task-definition/t:1",
        "a",
        "RUNNING",
        vec![raw_container("c1", "web", "RUNNING")],
    );
    raw.containers = None;
    assert_eq!(Task::from_raw(&raw).unwrap_err(), ResolveError::MissingContainers);
}

#[test]
fn conversion_fails_on_empty_container_list() {
    let raw = raw_task("x:task-definition/t:1", "a", "RUNNING", vec![]);
    assert_eq!(Task::from_raw(&raw).unwrap_err(), ResolveError::NoContainersInTask);
}

#[test]
fn conversion_fails_on_incomplete_container() {
    let mut c = raw_container("c1", "web", "RUNNING");
    c.container_arn = None;
    let raw = raw_task("x:task-definition/t:1", "a", "RUNNING", vec![c]);
    assert_eq!(Task::from_raw(&raw).unwrap_err(), ResolveError::MissingContainerArn);

    let mut c = raw_container("c1", "web", "RUNNING");
    c.name = None;
    let raw = raw_task("x:task-definition/t:1", "a", "RUNNING", vec![c]);
    assert_eq!(Task::from_raw(&raw).unwrap_err(), ResolveError::MissingContainerName);

    let mut c = raw_container("c1", "web", "RUNNING");
    c.last_status = None;
    let raw = raw_task("x:task-definition/t:1", "a", "RUNNING", vec![c]);
    assert_eq!(Task::from_raw(&raw).unwrap_err(), ResolveError::MissingContainerStatus);
}

#[test]
fn conversion_fails_without_task_arn_or_status() {
    let mut raw = raw_task("x:task-definition/t:1", "a", "RUNNING", vec![raw_container(
        "c1", "web", "RUNNING",
    )]);
    raw.task_arn = None;
    assert_eq!(Task::from_raw(&raw).unwrap_err(), ResolveError::MissingTaskArn);

    let mut raw = raw_task("x:task-definition/t:1", "a", "RUNNING", vec![raw_container(
        "c1", "web", "RUNNING",
    )]);
    raw.last_status = None;
    assert_eq!(Task::from_raw(&raw).unwrap_err(), ResolveError::MissingTaskStatus);
}

#[test]
fn conversion_fails_on_unknown_status_token() {
    let raw = raw_task("x:task-definition/t:1", "a", "Stopped", vec![raw_container(
        "c1", "web", "RUNNING",
    )]);
    assert_eq!(Task::from_raw(&raw).unwrap_err(), ResolveError::UnknownTaskStatus);
}

#[test]
fn two_containers_without_explicit_name_prompt_with_menu_of_two() {
    let task = task_with_containers(vec![
        container("c1", "db", "RUNNING"),
        container("c2", "web", "RUNNING"),
    ]);
    match choose_container(&task, None).expect("resolution should succeed") {
        ContainerResolution::Menu(labels) => {
            assert_eq!(labels, vec!["db".to_string(), "web".to_string()]);
        }
        ContainerResolution::Chosen(_) => panic!("expected a prompt, not an auto-selection"),
    }
}

#[test]
fn single_container_auto_selects_without_prompt() {
    let task = task_with_containers(vec![container("c1", "db", "RUNNING")]);
    match choose_container(&task, None).expect("resolution should succeed") {
        ContainerResolution::Chosen(c) => {
            assert_eq!(c.name, "db");
            assert_eq!(c.arn, "c1");
        }
        ContainerResolution::Menu(_) => panic!("expected auto-selection, not a prompt"),
    }
}

#[test]
fn explicit_container_name_not_present_fails_without_prompt() {
    let task = task_with_containers(vec![
        container("c1", "web", "RUNNING"),
        container("c2", "cache", "RUNNING"),
    ]);
    let r = choose_container(&task, Some("db".to_string()));
    assert_eq!(r.unwrap_err(), ResolveError::ContainerNotFound);
}

#[test]
fn explicit_container_matches_name_or_arn() {
    let task = task_with_containers(vec![
        container("c1", "web", "RUNNING"),
        container("c2", "cache", "RUNNING"),
    ]);
    match choose_container(&task, Some("cache".to_string())).unwrap() {
        ContainerResolution::Chosen(c) => assert_eq!(c.arn, "c2"),
        ContainerResolution::Menu(_) => panic!("explicit names never prompt"),
    }
    match choose_container(&task, Some("c1".to_string())).unwrap() {
        ContainerResolution::Chosen(c) => assert_eq!(c.name, "web"),
        ContainerResolution::Menu(_) => panic!("explicit names never prompt"),
    }
}

#[test]
fn cluster_menu_sorts_and_keeps_index_correspondence() {
    let prefix = "arn:aws:ecs:eu-west-1:111122223333:cluster/";
    let names = ["kiwi", "apple", "zebra", "mango", "banana", "fig", "date", "cherry", "plum",
        "grape"];
    let arns: Vec<String> = names.iter().map(|n| format!("{}{}", prefix, n)).collect();
    let entries = cluster_menu(&arns).expect("ten well-formed identifiers");
    assert_eq!(entries.len(), 10);
    assert_eq!(entries[0].friendly, "apple");
    let mut sorted_names: Vec<&str> = names.to_vec();
    sorted_names.sort_unstable();
    for (i, entry) in entries.iter().enumerate() {
        assert_eq!(entry.friendly, sorted_names[i]);
        assert_eq!(entry.arn, format!("{}{}", prefix, sorted_names[i]));
    }
}

#[test]
fn cluster_menu_fails_on_empty_enumeration() {
    assert_eq!(cluster_menu(&vec![]).unwrap_err(), ResolveError::NoClustersFound);
}

#[test]
fn cluster_menu_fails_on_identifier_without_delimiter() {
    let arns = vec!["arn:aws:ecs:eu-west-1:1:cluster/ok".to_string(), "nonsense".to_string()];
    assert_eq!(cluster_menu(&arns).unwrap_err(), ResolveError::MalformedClusterArn);
}

#[test]
fn profile_menu_drops_default_and_sorts() {
    let names = vec![
        "prod".to_string(),
        "default".to_string(),
        "dev".to_string(),
        "staging".to_string(),
    ];
    let menu = profile_menu(&names);
    assert_eq!(menu, vec!["dev".to_string(), "prod".to_string(), "staging".to_string()]);
}

#[test]
fn profile_menu_of_only_default_is_empty() {
    let names = vec!["default".to_string()];
    assert!(profile_menu(&names).is_empty());
}

#[test]
fn credential_dump_parses_to_exactly_two_pairs() {
    let pairs = parse_env_dump("AWS_ACCESS_KEY_ID=X\nAWS_SECRET_ACCESS_KEY=Y\n")
        .expect("two assignments");
    assert_eq!(pairs.len(), 2);
    assert_eq!(pairs[0].key, "AWS_ACCESS_KEY_ID");
    assert_eq!(pairs[0].value, "X");
    assert_eq!(pairs[1].key, "AWS_SECRET_ACCESS_KEY");
    assert_eq!(pairs[1].value, "Y");
}

#[test]
fn empty_credential_dump_fails_the_bridge() {
    assert_eq!(parse_env_dump("").unwrap_err(), ResolveError::EmptyCredentialDump);
    assert_eq!(parse_env_dump("\n\n").unwrap_err(), ResolveError::EmptyCredentialDump);
}

#[test]
fn credential_line_without_assignment_fails() {
    assert_eq!(
        parse_env_dump("AWS_REGION=eu-west-1\ngarbage\n").unwrap_err(),
        ResolveError::MalformedCredentialLine
    );
}

#[test]
fn credential_value_keeps_later_equals_signs() {
    let pairs = parse_env_dump("AWS_SESSION_TOKEN=abc=def==\n").unwrap();
    assert_eq!(pairs.len(), 1);
    assert_eq!(pairs[0].key, "AWS_SESSION_TOKEN");
    assert_eq!(pairs[0].value, "abc=def==");
}

#[test]
fn batch_conversion_fails_whole_batch_on_one_bad_record() {
    let good = raw_task("x:task-definition/a:1", "a", "RUNNING", vec![raw_container(
        "c1", "web", "RUNNING",
    )]);
    let bad = raw_task("no-delimiter", "b", "RUNNING", vec![raw_container(
        "c2", "db", "RUNNING",
    )]);
    let raws = vec![good, bad];
    assert_eq!(tasks_from_raw(&raws).unwrap_err(), ResolveError::MalformedTaskDefinitionArn);
}

#[test]
fn batch_conversion_converts_all_records_in_order() {
    let raws = vec![
        raw_task("x:task-definition/beta:1", "b", "RUNNING", vec![raw_container(
            "c2", "db", "RUNNING",
        )]),
        raw_task("x:task-definition/alpha:1", "a", "RUNNING", vec![raw_container(
            "c1", "web", "RUNNING",
        )]),
    ];
    let tasks = tasks_from_raw(&raws).unwrap();
    assert_eq!(tasks.len(), 2);
    assert_eq!(tasks[0].name, "beta");
    assert_eq!(tasks[1].name, "alpha");
}

#[test]
fn named_task_resolution_requires_a_first_record() {
    assert_eq!(first_task_from_raw(&vec![]).unwrap_err(), ResolveError::NoTasksFound);
    let raws = vec![
        raw_task("x:task-definition/alpha:1", "a", "RUNNING", vec![raw_container(
            "c1", "web", "RUNNING",
        )]),
        raw_task("broken", "b", "RUNNING", vec![raw_container("c2", "db", "RUNNING")]),
    ];
    let t = first_task_from_raw(&raws).expect("first record converts; the rest are ignored");
    assert_eq!(t.name, "alpha");
}

#[test]
fn tasks_sort_by_name_ascending() {
    let mk = |name: &str| Task {
        name: name.to_string(),
        arn: format!("arn/{}", name),
        containers: vec![container("c", "web", "RUNNING")],
        status: TaskStatus::RUNNING,
    };
    let sorted = sort_tasks(vec![mk("web"), mk("api"), mk("worker"), mk("db")]);
    let names: Vec<&str> = sorted.iter().map(|t| t.name.as_str()).collect();
    assert_eq!(names, vec!["api", "db", "web", "worker"]);
}

#[test]
fn task_menu_labels_follow_task_order() {
    let mk = |name: &str| Task {
        name: name.to_string(),
        arn: format!("arn/{}", name),
        containers: vec![container("c", "web", "RUNNING")],
        status: TaskStatus::RUNNING,
    };
    let tasks = vec![mk("api"), mk("db")];
    let labels = task_menu_labels(&tasks);
    assert_eq!(labels, vec![
        "api (arn/api) [web]".to_string(),
        "db (arn/db) [web]".to_string(),
    ]);
}

#[test]
fn upstream_failures_abort_resolution() {
    assert!(ensure_no_failures(&None).is_ok());
    assert!(ensure_no_failures(&Some(vec![])).is_ok());
    assert_eq!(
        ensure_no_failures(&Some(vec!["reason".to_string()])).unwrap_err(),
        ResolveError::UpstreamFailure
    );
}

#[test]
fn sort_strings_orders_lexicographically() {
    let sorted = sort_strings(vec![
        "pear".to_string(),
        "apple".to_string(),
        "apple".to_string(),
        "fig".to_string(),
    ]);
    assert_eq!(sorted, vec![
        "apple".to_string(),
        "apple".to_string(),
        "fig".to_string(),
        "pear".to_string(),
    ]);
}

#[test]
fn substring_search_finds_first_occurrence() {
    assert_eq!(find_substr("a:cluster/x:cluster/y", ":cluster/"), Some(1));
    assert_eq!(find_substr("abc", "zz"), None);
    assert_eq!(find_substr("abc", ""), Some(0));
}

#[test]
fn lexicographic_comparison_matches_standard_order() {
    assert!(str_lex_le("", "a"));
    assert!(str_lex_le("apple", "apple"));
    assert!(str_lex_le("apple", "apples"));
    assert!(str_lex_le("apple", "banana"));
    assert!(!str_lex_le("banana", "apple"));
}

#[test]
fn session_commands_render_exactly() {
    assert_eq!(login_command("prod"), "aws-vault login prod");
    assert_eq!(credential_dump_command("prod"), "aws-vault exec prod -- env | grep AWS_");
    assert_eq!(
        execute_session_command("my-cluster", "arn:task/1", "web"),
        "aws ecs execute-command --cluster my-cluster --task arn:task/1 --container web \
         --command \"/usr/bin/env bash\" --interactive"
    );
}

#[test]
fn error_messages_describe_each_failure() {
    assert_eq!(ResolveError::ContainerNotFound.message(), "no container found matching");
    assert_eq!(ResolveError::NoClustersFound.message(), "no clusters found");
    assert_eq!(ResolveError::NoTasksFound.message(), "no task found");
    assert!(!ResolveError::UpstreamFailure.message().is_empty());
}

#[test]
fn cli_commands_carry_the_resolution_arguments() {
    let cli = Cli {
        command: Commands::Execute {
            environment: Some("prod".to_string()),
            container: None,
            cluster: Some("main".to_string()),
            region: None,
            task: Some("api".to_string()),
        },
    };
    match cli.command {
        Commands::Execute { environment, cluster, task, container, region } => {
            assert_eq!(environment.as_deref(), Some("prod"));
            assert_eq!(cluster.as_deref(), Some("main"));
            assert_eq!(task.as_deref(), Some("api"));
            assert!(container.is_none());
            assert!(region.is_none());
        }
        Commands::Login { .. } => panic!("built an execute invocation"),
    }
}
