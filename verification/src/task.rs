//! Domain model: tasks, containers and lifecycle statuses, their rendering
//! rules, and the partial conversion from raw orchestration-API records.

use vstd::prelude::*;

use crate::errors::ResolveError;
use crate::strutil::{find_substr, lemma_spec_find, spec_find, str_eq};

verus! {

/// The closed vocabulary of task lifecycle statuses reported by the
/// orchestration API, in lifecycle order.
#[derive(Clone, Copy, Debug, PartialEq, Eq, Structural)]
pub enum TaskStatus {
    PROVISIONING,
    PENDING,
    ACTIVATING,
    RUNNING,
    DEACTIVATING,
    STOPPING,
    DEPROVISIONING,
    STOPPED,
}

/// The exact name of a status, as the API spells it.
pub open spec fn status_name(s: TaskStatus) -> Seq<char> {
    match s {
        TaskStatus::PROVISIONING => "PROVISIONING"@,
        TaskStatus::PENDING => "PENDING"@,
        TaskStatus::ACTIVATING => "ACTIVATING"@,
        TaskStatus::RUNNING => "RUNNING"@,
        TaskStatus::DEACTIVATING => "DEACTIVATING"@,
        TaskStatus::STOPPING => "STOPPING"@,
        TaskStatus::DEPROVISIONING => "DEPROVISIONING"@,
        TaskStatus::STOPPED => "STOPPED"@,
    }
}

/// The status a string parses to: exact, case-sensitive match against the
/// eight names, with no fallback.
pub open spec fn spec_status_of(s: Seq<char>) -> Option<TaskStatus> {
    if s == "PROVISIONING"@ {
        Some(TaskStatus::PROVISIONING)
    } else if s == "PENDING"@ {
        Some(TaskStatus::PENDING)
    } else if s == "ACTIVATING"@ {
        Some(TaskStatus::ACTIVATING)
    } else if s == "RUNNING"@ {
        Some(TaskStatus::RUNNING)
    } else if s == "DEACTIVATING"@ {
        Some(TaskStatus::DEACTIVATING)
    } else if s == "STOPPING"@ {
        Some(TaskStatus::STOPPING)
    } else if s == "DEPROVISIONING"@ {
        Some(TaskStatus::DEPROVISIONING)
    } else if s == "STOPPED"@ {
        Some(TaskStatus::STOPPED)
    } else {
        None
    }
}

/// The suffix a status contributes to a menu line: nothing for the common
/// healthy case, otherwise a space and the status name.
pub open spec fn status_suffix(s: TaskStatus) -> Seq<char> {
    if s == TaskStatus::RUNNING {
        Seq::<char>::empty()
    } else {
        " "@ + status_name(s)
    }
}

impl TaskStatus {
    /// The status name as a string slice.
    pub fn name_str(self) -> (r: &'static str)
        ensures
            r@ == status_name(self),
    {
        match self {
            TaskStatus::PROVISIONING => "PROVISIONING",
            TaskStatus::PENDING => "PENDING",
            TaskStatus::ACTIVATING => "ACTIVATING",
            TaskStatus::RUNNING => "RUNNING",
            TaskStatus::DEACTIVATING => "DEACTIVATING",
            TaskStatus::STOPPING => "STOPPING",
            TaskStatus::DEPROVISIONING => "DEPROVISIONING",
            TaskStatus::STOPPED => "STOPPED",
        }
    }

    /// Renders the menu suffix for this status.
    pub fn pretty_status(self) -> (r: String)
        ensures
            r@ == status_suffix(self),
    {
        if self == TaskStatus::RUNNING {
            String::new()
        } else {
            let mut r = String::from_str(" ");
            r.append(self.name_str());
            r
        }
    }

    /// Parses a status string: exactly one of the eight names, case-sensitive.
    pub fn parse(s: &str) -> (r: Option<TaskStatus>)
        ensures
            r == spec_status_of(s@),
    {
        if str_eq(s, "PROVISIONING") {
            Some(TaskStatus::PROVISIONING)
        } else if str_eq(s, "PENDING") {
            Some(TaskStatus::PENDING)
        } else if str_eq(s, "ACTIVATING") {
            Some(TaskStatus::ACTIVATING)
        } else if str_eq(s, "RUNNING") {
            Some(TaskStatus::RUNNING)
        } else if str_eq(s, "DEACTIVATING") {
            Some(TaskStatus::DEACTIVATING)
        } else if str_eq(s, "STOPPING") {
            Some(TaskStatus::STOPPING)
        } else if str_eq(s, "DEPROVISIONING") {
            Some(TaskStatus::DEPROVISIONING)
        } else if str_eq(s, "STOPPED") {
            Some(TaskStatus::STOPPED)
        } else {
            None
        }
    }
}

/// The rendered status suffix is empty exactly when the status is `RUNNING`;
/// for every other status it is a single space followed by the status name.
pub proof fn lemma_status_suffix_empty_iff_running(s: TaskStatus)
    ensures
        (status_suffix(s) == Seq::<char>::empty()) <==> (s == TaskStatus::RUNNING),
        s != TaskStatus::RUNNING ==> status_suffix(s) == " "@ + status_name(s),
{
    reveal_strlit(" ");
    if s != TaskStatus::RUNNING {
        assert(status_suffix(s).len() >= 1);
    }
}

/// The mathematical content of a `Container`.
#[verifier::ext_equal]
pub struct ContainerV {
    pub arn: Seq<char>,
    pub name: Seq<char>,
    pub status: Seq<char>,
}

/// One process unit inside a task. The status is the free-form string the API
/// returned, not constrained to `TaskStatus`.
#[derive(Clone, Debug)]
pub struct Container {
    pub arn: String,
    pub name: String,
    pub status: String,
}

impl View for Container {
    type V = ContainerV;

    open spec fn view(&self) -> ContainerV {
        ContainerV { arn: self.arn@, name: self.name@, status: self.status@ }
    }
}

impl DeepView for Container {
    type V = ContainerV;

    open spec fn deep_view(&self) -> ContainerV {
        self.view()
    }
}

/// The menu line of a container: the name alone while it is running,
/// otherwise the name, a space, and the raw status string.
pub open spec fn container_pretty(c: ContainerV) -> Seq<char> {
    if c.status == "RUNNING"@ {
        c.name
    } else {
        c.name + " "@ + c.status
    }
}

impl Container {
    /// Renders the menu line of this container.
    pub fn pretty(&self) -> (r: String)
        ensures
            r@ == container_pretty(self@),
    {
        if str_eq(self.status.as_str(), "RUNNING") {
            self.name.clone()
        } else {
            let mut r = self.name.clone();
            r.append(" ");
            r.append(self.status.as_str());
            r
        }
    }
}

/// A container's menu line equals its name alone exactly when its status
/// string is `"RUNNING"`; otherwise it is the name, a space, and the status.
pub proof fn lemma_pretty_name_alone_iff_running(c: ContainerV)
    ensures
        (container_pretty(c) == c.name) <==> (c.status == "RUNNING"@),
        c.status != "RUNNING"@ ==> container_pretty(c) == c.name + " "@ + c.status,
{
    reveal_strlit(" ");
    if c.status != "RUNNING"@ {
        assert(container_pretty(c).len() == c.name.len() + 1 + c.status.len());
    }
}

/// The mathematical content of a `Task`.
#[verifier::ext_equal]
pub struct TaskV {
    pub name: Seq<char>,
    pub arn: Seq<char>,
    pub containers: Seq<ContainerV>,
    pub status: TaskStatus,
}

impl TaskV {
    /// A successfully resolved task always carries at least one container.
    pub open spec fn wf(self) -> bool {
        self.containers.len() > 0
    }
}

/// One orchestrator-managed running unit.
#[derive(Clone, Debug)]
pub struct Task {
    pub name: String,
    pub arn: String,
    pub containers: Vec<Container>,
    pub status: TaskStatus,
}

impl View for Task {
    type V = TaskV;

    open spec fn view(&self) -> TaskV {
        TaskV {
            name: self.name@,
            arn: self.arn@,
            containers: self.containers.deep_view(),
            status: self.status,
        }
    }
}

impl DeepView for Task {
    type V = TaskV;

    open spec fn deep_view(&self) -> TaskV {
        self.view()
    }
}

/// The container menu lines joined with `", "`, in container order.
pub open spec fn containers_pretty_joined(cs: Seq<ContainerV>) -> Seq<char>
    decreases cs.len(),
{
    if cs.len() == 0 {
        Seq::<char>::empty()
    } else if cs.len() == 1 {
        container_pretty(cs[0])
    } else {
        container_pretty(cs[0]) + ", "@ + containers_pretty_joined(cs.skip(1))
    }
}

/// The full menu line of a task:
/// `<name><status suffix> (<arn>) [<container lines>]`.
pub open spec fn task_friendly(t: TaskV) -> Seq<char> {
    t.name + status_suffix(t.status) + " ("@ + t.arn + ") ["@ + containers_pretty_joined(
        t.containers,
    ) + "]"@
}

impl Task {
    /// Renders one task menu line.
    pub fn friendly_output(&self) -> (r: String)
        ensures
            r@ == task_friendly(self@),
    {
        let ghost csv = self@.containers;
        let n = self.containers.len();
        let mut joined = String::new();
        let mut idx: usize = 0;
        proof {
            assert(csv.skip(0) =~= csv);
        }
        while idx < n
            invariant
                idx <= n,
                n == self.containers.len(),
                csv == self@.containers,
                joined@ + containers_pretty_joined(csv.skip(idx as int)) == containers_pretty_joined(
                    csv,
                ),
            decreases n - idx,
        {
            let p = self.containers[idx].pretty();
            joined.append(p.as_str());
            proof {
                assert(csv.skip(idx as int)[0] == csv[idx as int]);
                assert(csv.skip(idx as int).skip(1) =~= csv.skip(idx as int + 1));
            }
            if idx != n - 1 {
                joined.append(", ");
            } else {
                proof {
                    assert(csv.skip(idx as int).len() == 1);
                    assert(csv.skip(idx as int + 1) =~= Seq::<ContainerV>::empty());
                }
            }
            idx = idx + 1;
        }
        proof {
            assert(csv.skip(n as int) =~= Seq::<ContainerV>::empty());
            assert(joined@ + containers_pretty_joined(Seq::<ContainerV>::empty()) =~= joined@);
        }
        let mut r = self.name.clone();
        let suffix = self.status.pretty_status();
        r.append(suffix.as_str());
        r.append(" (");
        r.append(self.arn.as_str());
        r.append(") [");
        r.append(joined.as_str());
        r.append("]");
        proof {
            assert(r@ =~= task_friendly(self@));
        }
        r
    }
}

/// One container record as the orchestration API returns it: every field may
/// be absent.
pub struct RawContainer {
    pub container_arn: Option<String>,
    pub name: Option<String>,
    pub last_status: Option<String>,
}

/// One task record as the orchestration API returns it: every field may be
/// absent.
pub struct RawTask {
    pub task_definition_arn: Option<String>,
    pub task_arn: Option<String>,
    pub last_status: Option<String>,
    pub containers: Option<Vec<RawContainer>>,
}

/// The delimiter that precedes the logical definition name inside a
/// task-definition identifier.
pub open spec fn task_def_delim() -> Seq<char> {
    ":task-definition/"@
}

/// The logical definition name embedded in a task-definition identifier: the
/// segment after the first `":task-definition/"`, up to the next `':'` (the
/// revision delimiter) or the end. `None` when the delimiter never occurs.
pub open spec fn spec_def_name(arn: Seq<char>) -> Option<Seq<char>> {
    match spec_find(arn, task_def_delim()) {
        None => None,
        Some(i) => {
            let rest = arn.subrange(i + task_def_delim().len() as int, arn.len() as int);
            match spec_find(rest, ":"@) {
                Some(j) => Some(rest.subrange(0, j)),
                None => Some(rest),
            }
        },
    }
}

/// What one raw container record converts to: a failure naming the first
/// absent field, or the container.
pub open spec fn spec_convert_container(rc: RawContainer) -> Result<ContainerV, ResolveError> {
    match rc.container_arn {
        None => Err(ResolveError::MissingContainerArn),
        Some(arn) => match rc.name {
            None => Err(ResolveError::MissingContainerName),
            Some(name) => match rc.last_status {
                None => Err(ResolveError::MissingContainerStatus),
                Some(status) => Ok(ContainerV { arn: arn@, name: name@, status: status@ }),
            },
        },
    }
}

/// What a sequence of raw container records converts to: the first failure
/// wins; otherwise all containers, in order.
pub open spec fn spec_convert_containers(s: Seq<RawContainer>) -> Result<
    Seq<ContainerV>,
    ResolveError,
>
    decreases s.len(),
{
    if s.len() == 0 {
        Ok(Seq::<ContainerV>::empty())
    } else {
        match spec_convert_container(s[0]) {
            Err(e) => Err(e),
            Ok(c) => match spec_convert_containers(s.skip(1)) {
                Err(e) => Err(e),
                Ok(rest) => Ok(seq![c] + rest),
            },
        }
    }
}

/// What one raw task record converts to. The conversion is partial: a record
/// missing any required field, bearing a malformed task-definition
/// identifier, carrying no container, or bearing an unknown status fails with
/// the matching error, never with a default.
pub open spec fn spec_task_from_raw(rt: RawTask) -> Result<TaskV, ResolveError> {
    match rt.task_definition_arn {
        None => Err(ResolveError::MissingTaskDefinitionArn),
        Some(defarn) => match spec_def_name(defarn@) {
            None => Err(ResolveError::MalformedTaskDefinitionArn),
            Some(name) => match rt.containers {
                None => Err(ResolveError::MissingContainers),
                Some(cs) => if cs@.len() == 0 {
                    Err(ResolveError::NoContainersInTask)
                } else {
                    match spec_convert_containers(cs@) {
                        Err(e) => Err(e),
                        Ok(cvs) => match rt.task_arn {
                            None => Err(ResolveError::MissingTaskArn),
                            Some(tarn) => match rt.last_status {
                                None => Err(ResolveError::MissingTaskStatus),
                                Some(ls) => match spec_status_of(ls@) {
                                    None => Err(ResolveError::UnknownTaskStatus),
                                    Some(st) => Ok(
                                        TaskV {
                                            name,
                                            arn: tarn@,
                                            containers: cvs,
                                            status: st,
                                        },
                                    ),
                                },
                            },
                        },
                    }
                },
            },
        },
    }
}

/// Converts one raw container record.
fn convert_container(rc: &RawContainer) -> (r: Result<Container, ResolveError>)
    ensures
        match r {
            Ok(c) => spec_convert_container(*rc) == Ok::<ContainerV, ResolveError>(c@),
            Err(e) => spec_convert_container(*rc) == Err::<ContainerV, ResolveError>(e),
        },
{
    let arn = match &rc.container_arn {
        Some(a) => a.clone(),
        None => {
            return Err(ResolveError::MissingContainerArn);
        },
    };
    let nm = match &rc.name {
        Some(n) => n.clone(),
        None => {
            return Err(ResolveError::MissingContainerName);
        },
    };
    let st = match &rc.last_status {
        Some(s) => s.clone(),
        None => {
            return Err(ResolveError::MissingContainerStatus);
        },
    };
    Ok(Container { arn, name: nm, status: st })
}

/// Converts a collection of raw container records, first failure wins.
fn convert_containers(cs: &Vec<RawContainer>) -> (r: Result<Vec<Container>, ResolveError>)
    ensures
        match r {
            Ok(v) => spec_convert_containers(cs@) == Ok::<Seq<ContainerV>, ResolveError>(
                v.deep_view(),
            ),
            Err(e) => spec_convert_containers(cs@) == Err::<Seq<ContainerV>, ResolveError>(e),
        },
{
    let n = cs.len();
    let mut out: Vec<Container> = Vec::new();
    let mut idx: usize = 0;
    proof {
        assert(out.deep_view() =~= Seq::<ContainerV>::empty());
        assert(cs@.skip(0) =~= cs@);
    }
    while idx < n
        invariant
            idx <= n,
            n == cs.len(),
            match spec_convert_containers(cs@.skip(idx as int)) {
                Ok(rest) => spec_convert_containers(cs@) == Ok::<Seq<ContainerV>, ResolveError>(
                    out.deep_view() + rest,
                ),
                Err(e) => spec_convert_containers(cs@) == Err::<Seq<ContainerV>, ResolveError>(e),
            },
        decreases n - idx,
    {
        proof {
            assert(cs@.skip(idx as int)[0] == cs@[idx as int]);
            assert(cs@.skip(idx as int).skip(1) =~= cs@.skip(idx as int + 1));
        }
        match convert_container(&cs[idx]) {
            Err(e) => {
                return Err(e);
            },
            Ok(c) => {
                let ghost out_pre = out.deep_view();
                out.push(c);
                proof {
                    assert(out.deep_view() =~= out_pre.push(c@));
                    if spec_convert_containers(cs@.skip(idx as int + 1)) is Ok {
                        let rest = spec_convert_containers(cs@.skip(idx as int + 1))->Ok_0;
                        assert(out_pre + (seq![c@] + rest) =~= out.deep_view() + rest);
                    }
                }
            },
        }
        idx = idx + 1;
    }
    proof {
        assert(cs@.skip(n as int) =~= Seq::<RawContainer>::empty());
        assert(out.deep_view() + Seq::<ContainerV>::empty() =~= out.deep_view());
    }
    Ok(out)
}

impl Task {
    /// Converts one raw orchestration-API task record into the domain model,
    /// or says precisely why the record is unusable.
    pub fn from_raw(raw: &RawTask) -> (r: Result<Task, ResolveError>)
        ensures
            match r {
                Ok(t) => spec_task_from_raw(*raw) == Ok::<TaskV, ResolveError>(t@),
                Err(e) => spec_task_from_raw(*raw) == Err::<TaskV, ResolveError>(e),
            },
    {
        let defarn = match &raw.task_definition_arn {
            Some(s) => s,
            None => {
                return Err(ResolveError::MissingTaskDefinitionArn);
            },
        };
        let name: String = match find_substr(defarn.as_str(), ":task-definition/") {
            None => {
                return Err(ResolveError::MalformedTaskDefinitionArn);
            },
            Some(i) => {
                proof {
                    lemma_spec_find(defarn@, ":task-definition/"@);
                }
                let dl = ":task-definition/".unicode_len();
                let total = defarn.as_str().unicode_len();
                let rest = defarn.as_str().substring_char(i + dl, total);
                match find_substr(rest, ":") {
                    Some(j) => {
                        proof {
                            lemma_spec_find(rest@, ":"@);
                        }
                        rest.substring_char(0, j).to_owned()
                    },
                    None => rest.to_owned(),
                }
            },
        };
        let cs = match &raw.containers {
            Some(cs) => cs,
            None => {
                return Err(ResolveError::MissingContainers);
            },
        };
        if cs.len() == 0 {
            return Err(ResolveError::NoContainersInTask);
        }
        let converted = match convert_containers(cs) {
            Ok(v) => v,
            Err(e) => {
                return Err(e);
            },
        };
        let arn = match &raw.task_arn {
            Some(a) => a.clone(),
            None => {
                return Err(ResolveError::MissingTaskArn);
            },
        };
        let ls = match &raw.last_status {
            Some(s) => s,
            None => {
                return Err(ResolveError::MissingTaskStatus);
            },
        };
        let status = match TaskStatus::parse(ls.as_str()) {
            Some(st) => st,
            None => {
                return Err(ResolveError::UnknownTaskStatus);
            },
        };
        Ok(Task { name, arn, containers: converted, status })
    }
}

} // verus!
