//! The resolution cascade's decision logic: picking a container, converting
//! and ordering task lists, and preparing the cluster and profile menus. The
//! interactive prompts themselves happen outside the library; these functions
//! either settle the choice or hand back the exact menu to show.

use vstd::prelude::*;

use crate::errors::ResolveError;
use crate::strutil::{
    find_substr, lemma_lex_le_common_prefix, lemma_lex_le_total, lemma_lex_le_trans, lemma_spec_find,
    lex_le, spec_find, str_eq, str_lex_le,
};
use crate::task::{
    spec_task_from_raw, task_friendly, Container, ContainerV, RawTask, Task, TaskV,
};

verus! {

/// The outcome of container resolution: either the choice is settled, or the
/// operator must pick from a menu of container names.
#[derive(Debug)]
pub enum ContainerResolution {
    Chosen(Container),
    Menu(Vec<String>),
}

/// Whether an explicitly given name picks this container: an exact match
/// against either its name or its identifier.
pub open spec fn container_matches(c: ContainerV, name: Seq<char>) -> bool {
    c.name == name || c.arn == name
}

/// A field-for-field copy of a container.
fn copy_container(c: &Container) -> (r: Container)
    ensures
        r@ == c@,
{
    Container { arn: c.arn.clone(), name: c.name.clone(), status: c.status.clone() }
}

/// Picks a container from a resolved task. An explicit name must match some
/// container's name or identifier exactly (the first match wins) and is never
/// prompted for; with no explicit name, a lone container is auto-selected and
/// anything more asks for a menu of the container names, in task order.
#[verifier::loop_isolation(false)]
pub fn choose_container(task: &Task, container_name: Option<String>) -> (r: Result<
    ContainerResolution,
    ResolveError,
>)
    requires
        task@.wf(),
    ensures
        match container_name {
            Some(name) => match r {
                Ok(res) => match res {
                    ContainerResolution::Chosen(c) => exists|i: int|
                        {
                            &&& 0 <= i < task@.containers.len()
                            &&& #[trigger] container_matches(task@.containers[i], name@)
                            &&& forall|j: int|
                                0 <= j < i ==> !container_matches(task@.containers[j], name@)
                            &&& c@ == task@.containers[i]
                        },
                    ContainerResolution::Menu(_) => false,
                },
                Err(e) => {
                    &&& e == ResolveError::ContainerNotFound
                    &&& forall|i: int|
                        0 <= i < task@.containers.len() ==> !container_matches(
                            task@.containers[i],
                            name@,
                        )
                },
            },
            None => match r {
                Ok(res) => match res {
                    ContainerResolution::Chosen(c) => task@.containers.len() == 1 && c@
                        == task@.containers[0],
                    ContainerResolution::Menu(labels) => {
                        &&& task@.containers.len() != 1
                        &&& labels@.len() == task@.containers.len()
                        &&& forall|i: int|
                            0 <= i < labels@.len() ==> labels@[i]@ == task@.containers[i].name
                    },
                },
                Err(_) => false,
            },
        },
{
    match container_name {
        Some(name) => {
            let n = task.containers.len();
            let mut idx: usize = 0;
            while idx < n
                invariant
                    idx <= n,
                    n == task.containers.len(),
                    forall|j: int|
                        0 <= j < idx ==> !container_matches(task@.containers[j], name@),
                decreases n - idx,
            {
                let c = &task.containers[idx];
                let name_hit = str_eq(c.name.as_str(), name.as_str());
                let arn_hit = str_eq(c.arn.as_str(), name.as_str());
                if name_hit || arn_hit {
                    proof {
                        assert(container_matches(task@.containers[idx as int], name@));
                    }
                    return Ok(ContainerResolution::Chosen(copy_container(c)));
                }
                idx = idx + 1;
            }
            Err(ResolveError::ContainerNotFound)
        },
        None => {
            if task.containers.len() == 1 {
                return Ok(ContainerResolution::Chosen(copy_container(&task.containers[0])));
            }
            let n = task.containers.len();
            let mut labels: Vec<String> = Vec::new();
            let mut idx: usize = 0;
            while idx < n
                invariant
                    idx <= n,
                    n == task.containers.len(),
                    labels@.len() == idx,
                    forall|i: int|
                        0 <= i < idx ==> labels@[i]@ == task@.containers[i].name,
                decreases n - idx,
            {
                labels.push(task.containers[idx].name.clone());
                idx = idx + 1;
            }
            Ok(ContainerResolution::Menu(labels))
        },
    }
}

/// Checks the per-item failure list of a describe-call: any reported failure
/// aborts the resolution.
pub fn ensure_no_failures(failures: &Option<Vec<String>>) -> (r: Result<(), ResolveError>)
    ensures
        match r {
            Ok(_) => match failures {
                Some(f) => f@.len() == 0,
                None => true,
            },
            Err(e) => e == ResolveError::UpstreamFailure && match failures {
                Some(f) => f@.len() > 0,
                None => false,
            },
        },
{
    match failures {
        Some(f) => {
            if f.len() > 0 {
                Err(ResolveError::UpstreamFailure)
            } else {
                Ok(())
            }
        },
        None => Ok(()),
    }
}

/// What a sequence of raw task records converts to: the first conversion
/// failure fails the whole batch; otherwise every task, in order.
pub open spec fn spec_tasks_from_raw(s: Seq<RawTask>) -> Result<Seq<TaskV>, ResolveError>
    decreases s.len(),
{
    if s.len() == 0 {
        Ok(Seq::<TaskV>::empty())
    } else {
        match spec_task_from_raw(s[0]) {
            Err(e) => Err(e),
            Ok(t) => match spec_tasks_from_raw(s.skip(1)) {
                Err(e) => Err(e),
                Ok(rest) => Ok(seq![t] + rest),
            },
        }
    }
}

/// Converts every raw task record of a batched describe-call; a conversion
/// failure for any record fails the whole resolution.
pub fn tasks_from_raw(raws: &Vec<RawTask>) -> (r: Result<Vec<Task>, ResolveError>)
    ensures
        match r {
            Ok(v) => spec_tasks_from_raw(raws@) == Ok::<Seq<TaskV>, ResolveError>(v.deep_view()),
            Err(e) => spec_tasks_from_raw(raws@) == Err::<Seq<TaskV>, ResolveError>(e),
        },
{
    let n = raws.len();
    let mut out: Vec<Task> = Vec::new();
    let mut idx: usize = 0;
    proof {
        assert(out.deep_view() =~= Seq::<TaskV>::empty());
        assert(raws@.skip(0) =~= raws@);
    }
    while idx < n
        invariant
            idx <= n,
            n == raws.len(),
            match spec_tasks_from_raw(raws@.skip(idx as int)) {
                Ok(rest) => spec_tasks_from_raw(raws@) == Ok::<Seq<TaskV>, ResolveError>(
                    out.deep_view() + rest,
                ),
                Err(e) => spec_tasks_from_raw(raws@) == Err::<Seq<TaskV>, ResolveError>(e),
            },
        decreases n - idx,
    {
        proof {
            assert(raws@.skip(idx as int)[0] == raws@[idx as int]);
            assert(raws@.skip(idx as int).skip(1) =~= raws@.skip(idx as int + 1));
        }
        match Task::from_raw(&raws[idx]) {
            Err(e) => {
                return Err(e);
            },
            Ok(t) => {
                let ghost out_pre = out.deep_view();
                out.push(t);
                proof {
                    assert(out.deep_view() =~= out_pre.push(t@));
                    if spec_tasks_from_raw(raws@.skip(idx as int + 1)) is Ok {
                        let rest = spec_tasks_from_raw(raws@.skip(idx as int + 1))->Ok_0;
                        assert(out_pre + (seq![t@] + rest) =~= out.deep_view() + rest);
                    }
                }
            },
        }
        idx = idx + 1;
    }
    proof {
        assert(raws@.skip(n as int) =~= Seq::<RawTask>::empty());
        assert(out.deep_view() + Seq::<TaskV>::empty() =~= out.deep_view());
    }
    Ok(out)
}

/// Resolves a named task from a describe-call's records: the first record
/// must exist and convert; any further records are ignored.
pub fn first_task_from_raw(raws: &Vec<RawTask>) -> (r: Result<Task, ResolveError>)
    ensures
        match r {
            Ok(t) => raws@.len() > 0 && spec_task_from_raw(raws@[0]) == Ok::<TaskV, ResolveError>(
                t@,
            ),
            Err(e) => (raws@.len() == 0 && e == ResolveError::NoTasksFound) || (raws@.len() > 0
                && spec_task_from_raw(raws@[0]) == Err::<TaskV, ResolveError>(e)),
        },
{
    if raws.len() == 0 {
        return Err(ResolveError::NoTasksFound);
    }
    Task::from_raw(&raws[0])
}

/// Renders the task menu: one line per task, in the tasks' stored order.
pub fn task_menu_labels(ts: &Vec<Task>) -> (labels: Vec<String>)
    ensures
        labels@.len() == ts@.len(),
        forall|i: int| 0 <= i < labels@.len() ==> labels@[i]@ == task_friendly(ts.deep_view()[i]),
{
    let n = ts.len();
    let mut labels: Vec<String> = Vec::new();
    let mut idx: usize = 0;
    while idx < n
        invariant
            idx <= n,
            n == ts.len(),
            labels@.len() == idx,
            forall|i: int|
                0 <= i < idx ==> labels@[i]@ == task_friendly(ts.deep_view()[i]),
        decreases n - idx,
    {
        labels.push(ts[idx].friendly_output());
        idx = idx + 1;
    }
    labels
}

/// A task sequence ordered by name, ascending.
pub open spec fn tasks_sorted(s: Seq<TaskV>) -> bool {
    forall|i: int, j: int| 0 <= i <= j < s.len() ==> lex_le(s[i].name, s[j].name)
}

/// Inserts a task into a name-sorted vector, keeping it sorted.
#[verifier::loop_isolation(false)]
fn insert_task_sorted(out: &mut Vec<Task>, x: Task)
    requires
        tasks_sorted(old(out).deep_view()),
    ensures
        tasks_sorted(final(out).deep_view()),
        exists|k: int|
            0 <= k <= old(out).deep_view().len() && final(out).deep_view() == old(
                out,
            ).deep_view().insert(k, x@),
        final(out).deep_view().to_multiset() == old(out).deep_view().to_multiset().insert(x@),
{
    let ghost pre = out.deep_view();
    let ghost gx = x@;
    let n = out.len();
    let mut k: usize = 0;
    while k < n && str_lex_le(out[k].name.as_str(), x.name.as_str())
        invariant
            k <= n,
            forall|t: int| 0 <= t < k ==> lex_le(pre[t].name, gx.name),
        decreases n - k,
    {
        k = k + 1;
    }
    proof {
        if k < n {
            lemma_lex_le_total(pre[k as int].name, gx.name);
        }
        lemma_lex_le_total(gx.name, gx.name);
    }
    out.insert(k, x);
    proof {
        broadcast use vstd::seq_lib::group_to_multiset_ensures;

        pre.insert_ensures(k as int, gx);
        assert(out.deep_view() =~= pre.insert(k as int, gx));
        let newdv = out.deep_view();
        let ki = k as int;
        assert forall|i: int, j: int| 0 <= i <= j < newdv.len() implies lex_le(
            newdv[i].name,
            newdv[j].name,
        ) by {
            if i == ki && j > ki {
                lemma_lex_le_trans(gx.name, pre[ki].name, pre[j - 1].name);
            }
        }
    }
}

/// Sorts tasks by name, ascending: the result is ordered and is a
/// rearrangement of the input.
#[verifier::loop_isolation(false)]
pub fn sort_tasks(ts: Vec<Task>) -> (r: Vec<Task>)
    ensures
        tasks_sorted(r.deep_view()),
        r.deep_view().to_multiset() == ts.deep_view().to_multiset(),
{
    let ghost orig = ts.deep_view();
    let mut rem = ts;
    let mut out: Vec<Task> = Vec::new();
    proof {
        broadcast use vstd::seq_lib::group_to_multiset_ensures;

        assert(out.deep_view() =~= Seq::<TaskV>::empty());
        assert(out.deep_view().to_multiset().add(rem.deep_view().to_multiset()) =~= rem.deep_view().to_multiset());
    }
    while rem.len() > 0
        invariant
            tasks_sorted(out.deep_view()),
            out.deep_view().to_multiset().add(rem.deep_view().to_multiset()) == orig.to_multiset(),
        decreases rem.len(),
    {
        let ghost rpre = rem.deep_view();
        let ghost opre = out.deep_view();
        let x = rem.remove(0);
        proof {
            broadcast use vstd::seq_lib::group_to_multiset_ensures;

            assert(rem.deep_view() =~= rpre.remove(0));
        }
        insert_task_sorted(&mut out, x);
        proof {
            broadcast use vstd::seq_lib::group_to_multiset_ensures;

            assert(rpre.to_multiset().contains(rpre[0]));
            assert(opre.to_multiset().insert(rpre[0]).add(rpre.to_multiset().remove(rpre[0]))
                =~= opre.to_multiset().add(rpre.to_multiset()));
        }
    }
    proof {
        broadcast use vstd::seq_lib::group_to_multiset_ensures;

        assert(rem.deep_view() =~= Seq::<TaskV>::empty());
        assert forall|a: TaskV| rem.deep_view().to_multiset().count(a) == 0 by {
            assert(!rem.deep_view().contains(a));
        }
        assert(out.deep_view().to_multiset().add(rem.deep_view().to_multiset()) =~= out.deep_view().to_multiset());
    }
    out
}

/// A string sequence ordered lexicographically, ascending.
pub open spec fn lex_sorted(s: Seq<Seq<char>>) -> bool {
    forall|i: int, j: int| 0 <= i <= j < s.len() ==> lex_le(s[i], s[j])
}

/// Inserts a string into a sorted vector, keeping it sorted.
#[verifier::loop_isolation(false)]
fn insert_string_sorted(out: &mut Vec<String>, x: String)
    requires
        lex_sorted(old(out).deep_view()),
    ensures
        lex_sorted(final(out).deep_view()),
        final(out).deep_view().to_multiset() == old(out).deep_view().to_multiset().insert(x@),
{
    let ghost pre = out.deep_view();
    let ghost gx = x@;
    let n = out.len();
    let mut k: usize = 0;
    while k < n && str_lex_le(out[k].as_str(), x.as_str())
        invariant
            k <= n,
            forall|t: int| 0 <= t < k ==> lex_le(pre[t], gx),
        decreases n - k,
    {
        k = k + 1;
    }
    proof {
        if k < n {
            lemma_lex_le_total(pre[k as int], gx);
        }
        lemma_lex_le_total(gx, gx);
    }
    out.insert(k, x);
    proof {
        broadcast use vstd::seq_lib::group_to_multiset_ensures;

        pre.insert_ensures(k as int, gx);
        assert(out.deep_view() =~= pre.insert(k as int, gx));
        let newdv = out.deep_view();
        let ki = k as int;
        assert forall|i: int, j: int| 0 <= i <= j < newdv.len() implies lex_le(
            newdv[i],
            newdv[j],
        ) by {
            if i == ki && j > ki {
                lemma_lex_le_trans(gx, pre[ki], pre[j - 1]);
            }
        }
    }
}

/// Sorts strings lexicographically, ascending: the result is ordered and is a
/// rearrangement of the input.
#[verifier::loop_isolation(false)]
pub fn sort_strings(v: Vec<String>) -> (r: Vec<String>)
    ensures
        lex_sorted(r.deep_view()),
        r.deep_view().to_multiset() == v.deep_view().to_multiset(),
{
    let ghost orig = v.deep_view();
    let mut rem = v;
    let mut out: Vec<String> = Vec::new();
    proof {
        broadcast use vstd::seq_lib::group_to_multiset_ensures;

        assert(out.deep_view() =~= Seq::<Seq<char>>::empty());
        assert(out.deep_view().to_multiset().add(rem.deep_view().to_multiset())
            =~= rem.deep_view().to_multiset());
    }
    while rem.len() > 0
        invariant
            lex_sorted(out.deep_view()),
            out.deep_view().to_multiset().add(rem.deep_view().to_multiset()) == orig.to_multiset(),
        decreases rem.len(),
    {
        let ghost rpre = rem.deep_view();
        let ghost opre = out.deep_view();
        let x = rem.remove(0);
        proof {
            broadcast use vstd::seq_lib::group_to_multiset_ensures;

            assert(rem.deep_view() =~= rpre.remove(0));
        }
        insert_string_sorted(&mut out, x);
        proof {
            broadcast use vstd::seq_lib::group_to_multiset_ensures;

            assert(rpre.to_multiset().contains(rpre[0]));
            assert(opre.to_multiset().insert(rpre[0]).add(rpre.to_multiset().remove(rpre[0]))
                =~= opre.to_multiset().add(rpre.to_multiset()));
        }
    }
    proof {
        broadcast use vstd::seq_lib::group_to_multiset_ensures;

        assert(rem.deep_view() =~= Seq::<Seq<char>>::empty());
        assert forall|a: Seq<char>| rem.deep_view().to_multiset().count(a) == 0 by {
            assert(!rem.deep_view().contains(a));
        }
        assert(out.deep_view().to_multiset().add(rem.deep_view().to_multiset())
            =~= out.deep_view().to_multiset());
    }
    out
}

/// The names offered for interactive profile selection: every discovered name
/// but the reserved default, in discovery order.
pub open spec fn spec_profile_candidates(names: Seq<Seq<char>>) -> Seq<Seq<char>> {
    names.filter(|n: Seq<char>| n != "default"@)
}

/// Prepares the profile menu: drops the reserved `"default"` name and sorts
/// the rest ascending.
#[verifier::loop_isolation(false)]
pub fn profile_menu(names: &Vec<String>) -> (r: Vec<String>)
    ensures
        lex_sorted(r.deep_view()),
        r.deep_view().to_multiset() == spec_profile_candidates(names.deep_view()).to_multiset(),
{
    let n = names.len();
    let mut kept: Vec<String> = Vec::new();
    let mut idx: usize = 0;
    proof {
        reveal(Seq::filter);
        assert(names.deep_view().take(0) =~= Seq::<Seq<char>>::empty());
        assert(kept.deep_view() =~= Seq::<Seq<char>>::empty());
    }
    while idx < n
        invariant
            idx <= n,
            kept.deep_view() == spec_profile_candidates(names.deep_view().take(idx as int)),
        decreases n - idx,
    {
        let ghost pretake = names.deep_view().take(idx as int);
        let ghost newtake = names.deep_view().take(idx as int + 1);
        proof {
            assert(newtake.drop_last() =~= pretake);
            assert(newtake.last() == names.deep_view()[idx as int]);
        }
        if !str_eq(names[idx].as_str(), "default") {
            let ghost kpre = kept.deep_view();
            kept.push(names[idx].clone());
            proof {
                assert(kept.deep_view() =~= kpre.push(names.deep_view()[idx as int]));
            }
        }
        proof {
            reveal(Seq::filter);
            assert(newtake.len() == idx + 1);
            assert(spec_profile_candidates(newtake) == (if newtake.last() != "default"@ {
                spec_profile_candidates(newtake.drop_last()).push(newtake.last())
            } else {
                spec_profile_candidates(newtake.drop_last())
            }));
        }
        idx = idx + 1;
    }
    proof {
        assert(names.deep_view().take(n as int) =~= names.deep_view());
    }
    sort_strings(kept)
}

/// One cluster menu entry: the raw identifier and the friendly display name
/// derived from it, kept side by side so the label shown and the value
/// returned can never drift apart.
#[derive(Debug)]
pub struct ClusterEntry {
    pub arn: String,
    pub friendly: String,
}

/// The mathematical content of a `ClusterEntry`.
#[verifier::ext_equal]
pub struct ClusterEntryV {
    pub arn: Seq<char>,
    pub friendly: Seq<char>,
}

impl View for ClusterEntry {
    type V = ClusterEntryV;

    open spec fn view(&self) -> ClusterEntryV {
        ClusterEntryV { arn: self.arn@, friendly: self.friendly@ }
    }
}

impl DeepView for ClusterEntry {
    type V = ClusterEntryV;

    open spec fn deep_view(&self) -> ClusterEntryV {
        self.view()
    }
}

/// The delimiter that precedes a cluster's friendly name inside its
/// identifier.
pub open spec fn cluster_delim() -> Seq<char> {
    ":cluster/"@
}

/// The friendly display name of a cluster: everything after the first
/// `":cluster/"` in its identifier. `None` when the delimiter never occurs.
pub open spec fn spec_cluster_friendly(arn: Seq<char>) -> Option<Seq<char>> {
    match spec_find(arn, cluster_delim()) {
        None => None,
        Some(i) => Some(arn.subrange(i + cluster_delim().len() as int, arn.len() as int)),
    }
}

/// A cluster entry sequence ordered by raw identifier, ascending.
pub open spec fn cluster_entries_sorted(s: Seq<ClusterEntryV>) -> bool {
    forall|i: int, j: int| 0 <= i <= j < s.len() ==> lex_le(s[i].arn, s[j].arn)
}

/// The raw identifiers of a cluster entry sequence, in order.
pub open spec fn entry_arns(s: Seq<ClusterEntryV>) -> Seq<Seq<char>> {
    s.map_values(|e: ClusterEntryV| e.arn)
}

/// Inserts a cluster entry into an identifier-sorted vector, keeping it
/// sorted.
#[verifier::loop_isolation(false)]
fn insert_entry_sorted(out: &mut Vec<ClusterEntry>, x: ClusterEntry)
    requires
        cluster_entries_sorted(old(out).deep_view()),
    ensures
        cluster_entries_sorted(final(out).deep_view()),
        exists|k: int|
            0 <= k <= old(out).deep_view().len() && final(out).deep_view() == old(
                out,
            ).deep_view().insert(k, x@),
        entry_arns(final(out).deep_view()).to_multiset() == entry_arns(
            old(out).deep_view(),
        ).to_multiset().insert(x@.arn),
{
    let ghost pre = out.deep_view();
    let ghost gx = x@;
    let n = out.len();
    let mut k: usize = 0;
    while k < n && str_lex_le(out[k].arn.as_str(), x.arn.as_str())
        invariant
            k <= n,
            forall|t: int| 0 <= t < k ==> lex_le(pre[t].arn, gx.arn),
        decreases n - k,
    {
        k = k + 1;
    }
    proof {
        if k < n {
            lemma_lex_le_total(pre[k as int].arn, gx.arn);
        }
        lemma_lex_le_total(gx.arn, gx.arn);
    }
    out.insert(k, x);
    proof {
        broadcast use vstd::seq_lib::group_to_multiset_ensures;

        pre.insert_ensures(k as int, gx);
        assert(out.deep_view() =~= pre.insert(k as int, gx));
        let newdv = out.deep_view();
        let ki = k as int;
        assert forall|i: int, j: int| 0 <= i <= j < newdv.len() implies lex_le(
            newdv[i].arn,
            newdv[j].arn,
        ) by {
            if i == ki && j > ki {
                lemma_lex_le_trans(gx.arn, pre[ki].arn, pre[j - 1].arn);
            }
        }
        assert(entry_arns(newdv) =~= entry_arns(pre).insert(ki, gx.arn));
    }
}

/// Prepares the cluster menu from the raw identifiers a list-call returned:
/// one entry per identifier, sorted ascending by identifier, each carrying
/// the friendly name derived from its own identifier. An empty enumeration
/// and an identifier without the delimiter each fail.
#[verifier::loop_isolation(false)]
pub fn cluster_menu(arns: &Vec<String>) -> (r: Result<Vec<ClusterEntry>, ResolveError>)
    ensures
        match r {
            Ok(entries) => {
                &&& arns@.len() > 0
                &&& entries.deep_view().len() == arns@.len()
                &&& cluster_entries_sorted(entries.deep_view())
                &&& forall|i: int|
                    0 <= i < entries.deep_view().len() ==> spec_cluster_friendly(
                        #[trigger] entries.deep_view()[i].arn,
                    ) == Some(entries.deep_view()[i].friendly)
                &&& entry_arns(entries.deep_view()).to_multiset() == arns.deep_view().to_multiset()
            },
            Err(e) => (e == ResolveError::NoClustersFound && arns@.len() == 0) || (e
                == ResolveError::MalformedClusterArn && arns@.len() > 0 && exists|i: int|
                0 <= i < arns@.len() && spec_cluster_friendly(#[trigger] arns.deep_view()[i]) is None),
        },
{
    let n = arns.len();
    if n == 0 {
        return Err(ResolveError::NoClustersFound);
    }
    let mut out: Vec<ClusterEntry> = Vec::new();
    let mut idx: usize = 0;
    proof {
        broadcast use vstd::seq_lib::group_to_multiset_ensures;

        assert(out.deep_view() =~= Seq::<ClusterEntryV>::empty());
        assert(entry_arns(out.deep_view()) =~= Seq::<Seq<char>>::empty());
        assert(arns.deep_view().take(0) =~= Seq::<Seq<char>>::empty());
        assert(entry_arns(out.deep_view()).to_multiset() =~= arns.deep_view().take(
            0,
        ).to_multiset());
    }
    while idx < n
        invariant
            idx <= n,
            cluster_entries_sorted(out.deep_view()),
            out.deep_view().len() == idx,
            forall|i: int|
                0 <= i < out.deep_view().len() ==> spec_cluster_friendly(
                    #[trigger] out.deep_view()[i].arn,
                ) == Some(out.deep_view()[i].friendly),
            entry_arns(out.deep_view()).to_multiset() == arns.deep_view().take(
                idx as int,
            ).to_multiset(),
        decreases n - idx,
    {
        let arn = arns[idx].clone();
        match find_substr(arn.as_str(), ":cluster/") {
            None => {
                proof {
                    assert(arn@ == arns.deep_view()[idx as int]);
                    assert(spec_cluster_friendly(arns.deep_view()[idx as int]) is None);
                }
                return Err(ResolveError::MalformedClusterArn);
            },
            Some(i) => {
                proof {
                    lemma_spec_find(arn@, ":cluster/"@);
                }
                let dl = ":cluster/".unicode_len();
                let total = arn.as_str().unicode_len();
                let friendly = arn.as_str().substring_char(i + dl, total).to_owned();
                let entry = ClusterEntry { arn, friendly };
                let ghost epre = out.deep_view();
                let ghost ge = entry@;
                insert_entry_sorted(&mut out, entry);
                proof {
                    broadcast use vstd::seq_lib::group_to_multiset_ensures;

                    let k = choose|k: int|
                        0 <= k <= epre.len() && out.deep_view() == epre.insert(k, ge);
                    epre.insert_ensures(k, ge);
                    assert(arns.deep_view().take(idx as int + 1) =~= arns.deep_view().take(
                        idx as int,
                    ).push(arns.deep_view()[idx as int]));
                }
            },
        }
        idx = idx + 1;
    }
    proof {
        assert(arns.deep_view().take(n as int) =~= arns.deep_view());
    }
    Ok(out)
}

/// When every identifier in a sorted menu is one common prefix followed by
/// its own friendly name, the menu is also sorted by friendly name: the
/// lexicographically smallest friendly name comes first, and the identifier
/// at position `i` is the one whose friendly name sorts at position `i`.
pub proof fn lemma_sorted_arns_sorted_friendly(entries: Seq<ClusterEntryV>, p: Seq<char>)
    requires
        cluster_entries_sorted(entries),
        forall|i: int|
            0 <= i < entries.len() ==> #[trigger] entries[i].arn == p + entries[i].friendly,
    ensures
        forall|i: int, j: int|
            0 <= i <= j < entries.len() ==> lex_le(entries[i].friendly, entries[j].friendly),
{
    assert forall|i: int, j: int|
        0 <= i <= j < entries.len() implies lex_le(entries[i].friendly, entries[j].friendly) by {
        lemma_lex_le_common_prefix(p, entries[i].friendly, entries[j].friendly);
        assert(lex_le(entries[i].arn, entries[j].arn));
    }
}

} // verus!
