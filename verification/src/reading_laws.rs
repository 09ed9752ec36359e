//! Laws on how the SDK reads what the cluster and the user give it, and how
//! it presents what it holds: execution states, manifests, and the mapping
//! forms of workload states and of the complete state.

use vstd::prelude::*;
use crate::ank_base;
use crate::manifest::{manifest_valid, manifest_workloads};
use crate::complete_state::{CompleteState, complete_state_dict, agents_view};
use crate::strings::decimal;
use crate::workload_dict::yaml_text;
use crate::workload_state::{
    WorkloadStateEnum, WorkloadSubStateEnum, interpret_execution_state,
};
use crate::yaml::{YamlView, ystr, yaml_field, yaml_get};
use crate::keyed::{KeyedList, keys_unique, has_key, entries_map, index_of_key, lemma_index_of_key, lookup3};
use crate::workload_state::{
    WorkloadExecutionState, WorkloadStateCollection, states_dict, names_dict, ids_dict, execution_state_dict,
};

verus! {

// ----------------------------------------------------------------------------
// Execution states
// ----------------------------------------------------------------------------

/// The main state that a variant of the protocol's execution state names.
pub open spec fn protocol_state(e: ank_base::ExecutionStateEnum) -> WorkloadStateEnum {
    match e {
        ank_base::ExecutionStateEnum::AgentDisconnected(_) => WorkloadStateEnum::AgentDisconnected,
        ank_base::ExecutionStateEnum::Pending(_) => WorkloadStateEnum::Pending,
        ank_base::ExecutionStateEnum::Running(_) => WorkloadStateEnum::Running,
        ank_base::ExecutionStateEnum::Stopping(_) => WorkloadStateEnum::Stopping,
        ank_base::ExecutionStateEnum::Succeeded(_) => WorkloadStateEnum::Succeeded,
        ank_base::ExecutionStateEnum::Failed(_) => WorkloadStateEnum::Failed,
        ank_base::ExecutionStateEnum::NotScheduled(_) => WorkloadStateEnum::NotScheduled,
        ank_base::ExecutionStateEnum::Removed(_) => WorkloadStateEnum::Removed,
    }
}

/// The sub-state code that a protocol execution state carries.
pub open spec fn protocol_code(e: ank_base::ExecutionStateEnum) -> i32 {
    match e {
        ank_base::ExecutionStateEnum::AgentDisconnected(c) => c,
        ank_base::ExecutionStateEnum::Pending(c) => c,
        ank_base::ExecutionStateEnum::Running(c) => c,
        ank_base::ExecutionStateEnum::Stopping(c) => c,
        ank_base::ExecutionStateEnum::Succeeded(c) => c,
        ank_base::ExecutionStateEnum::Failed(c) => c,
        ank_base::ExecutionStateEnum::NotScheduled(c) => c,
        ank_base::ExecutionStateEnum::Removed(c) => c,
    }
}

/// The main state that a sub-state refines.
pub open spec fn substate_state(s: WorkloadSubStateEnum) -> WorkloadStateEnum {
    match s {
        WorkloadSubStateEnum::AgentDisconnected => WorkloadStateEnum::AgentDisconnected,
        WorkloadSubStateEnum::PendingInitial => WorkloadStateEnum::Pending,
        WorkloadSubStateEnum::PendingWaitingToStart => WorkloadStateEnum::Pending,
        WorkloadSubStateEnum::PendingStarting => WorkloadStateEnum::Pending,
        WorkloadSubStateEnum::PendingStartingFailed => WorkloadStateEnum::Pending,
        WorkloadSubStateEnum::RunningOk => WorkloadStateEnum::Running,
        WorkloadSubStateEnum::Stopping => WorkloadStateEnum::Stopping,
        WorkloadSubStateEnum::StoppingWaitingToStop => WorkloadStateEnum::Stopping,
        WorkloadSubStateEnum::StoppingRequestedAtRuntime => WorkloadStateEnum::Stopping,
        WorkloadSubStateEnum::StoppingDeleteFailed => WorkloadStateEnum::Stopping,
        WorkloadSubStateEnum::SucceededOk => WorkloadStateEnum::Succeeded,
        WorkloadSubStateEnum::FailedExecFailed => WorkloadStateEnum::Failed,
        WorkloadSubStateEnum::FailedUnknown => WorkloadStateEnum::Failed,
        WorkloadSubStateEnum::FailedLost => WorkloadStateEnum::Failed,
        WorkloadSubStateEnum::NotScheduled => WorkloadStateEnum::NotScheduled,
        WorkloadSubStateEnum::Removed => WorkloadStateEnum::Removed,
    }
}

/// The code of a sub-state in the protocol's enumeration of the sub-states of
/// its main state.
pub open spec fn substate_code(s: WorkloadSubStateEnum) -> i32 {
    match s {
        WorkloadSubStateEnum::AgentDisconnected => 0,
        WorkloadSubStateEnum::PendingInitial => 0,
        WorkloadSubStateEnum::PendingWaitingToStart => 1,
        WorkloadSubStateEnum::PendingStarting => 2,
        WorkloadSubStateEnum::PendingStartingFailed => 8,
        WorkloadSubStateEnum::RunningOk => 0,
        WorkloadSubStateEnum::Stopping => 0,
        WorkloadSubStateEnum::StoppingWaitingToStop => 1,
        WorkloadSubStateEnum::StoppingRequestedAtRuntime => 2,
        WorkloadSubStateEnum::StoppingDeleteFailed => 8,
        WorkloadSubStateEnum::SucceededOk => 0,
        WorkloadSubStateEnum::FailedExecFailed => 0,
        WorkloadSubStateEnum::FailedUnknown => 1,
        WorkloadSubStateEnum::FailedLost => 2,
        WorkloadSubStateEnum::NotScheduled => 0,
        WorkloadSubStateEnum::Removed => 0,
    }
}

/// The sub-state `s` is the one that the protocol execution state `e`
/// denotes: it refines the main state that `e` names and has `e`'s code.
pub open spec fn denotes(e: ank_base::ExecutionStateEnum, s: WorkloadSubStateEnum) -> bool {
    substate_state(s) == protocol_state(e) && substate_code(s) == protocol_code(e)
}

/// Interpreting an execution state of the protocol, as
/// `WorkloadExecutionState::new` does: a state whose code the protocol
/// defines for its main state gives the main state of the same name and the
/// sub-state of that code (`Succeeded(0)` gives `Succeeded` and
/// `SucceededOk`); a state whose code is not defined, or a missing state,
/// gives an unknown failure.
pub proof fn law_execution_state_named_by_protocol(x: ank_base::ExecutionStateEnum)
    ensures
        (exists|s: WorkloadSubStateEnum| denotes(x, s)) ==> interpret_execution_state(Some(x)).0
            == protocol_state(x) && denotes(x, interpret_execution_state(Some(x)).1),
        !(exists|s: WorkloadSubStateEnum| denotes(x, s)) ==> interpret_execution_state(Some(x)) == (
        WorkloadStateEnum::Failed,
        WorkloadSubStateEnum::FailedUnknown,
        ),
        interpret_execution_state(None) == (WorkloadStateEnum::Failed, WorkloadSubStateEnum::FailedUnknown),
{
    let r = interpret_execution_state(Some(x));
    if exists|s: WorkloadSubStateEnum| denotes(x, s) {
        let s = choose|s: WorkloadSubStateEnum| denotes(x, s);
        match s {
            WorkloadSubStateEnum::AgentDisconnected => {},
            WorkloadSubStateEnum::PendingInitial => {},
            WorkloadSubStateEnum::PendingWaitingToStart => {},
            WorkloadSubStateEnum::PendingStarting => {},
            WorkloadSubStateEnum::PendingStartingFailed => {},
            WorkloadSubStateEnum::RunningOk => {},
            WorkloadSubStateEnum::Stopping => {},
            WorkloadSubStateEnum::StoppingWaitingToStop => {},
            WorkloadSubStateEnum::StoppingRequestedAtRuntime => {},
            WorkloadSubStateEnum::StoppingDeleteFailed => {},
            WorkloadSubStateEnum::SucceededOk => {},
            WorkloadSubStateEnum::FailedExecFailed => {},
            WorkloadSubStateEnum::FailedUnknown => {},
            WorkloadSubStateEnum::FailedLost => {},
            WorkloadSubStateEnum::NotScheduled => {},
            WorkloadSubStateEnum::Removed => {},
        }
    } else {
        if r != (WorkloadStateEnum::Failed, WorkloadSubStateEnum::FailedUnknown) {
            assert(denotes(x, r.1));
        }
    }
}

// ----------------------------------------------------------------------------
// Manifests
// ----------------------------------------------------------------------------

/// A manifest is accepted exactly when it has an API version and each of its
/// workloads is a mapping with a runtime, a runtime configuration and an
/// agent, every field of which is named `runtime`, `agent`, `restartPolicy`,
/// `runtimeConfig`, `dependencies`, `tags`, `controlInterfaceAccess` or
/// `configs`. `Manifest::new` and `Manifest::from_string` accept by
/// `manifest_valid`.
pub proof fn law_manifest_fields(m: YamlView)
    ensures
        manifest_valid(m) <==> {
            &&& yaml_field(m, ystr("apiVersion"@)) is Some
            &&& forall|i: int|
                0 <= i < manifest_workloads(m).len() ==> {
                    let w = #[trigger] manifest_workloads(m)[i].1;
                    &&& w matches YamlView::Mapping(fs) && forall|j: int|
                        0 <= j < fs.len() ==> {
                            let f = yaml_text(#[trigger] fs[j].0);
                            ||| f == "runtime"@
                            ||| f == "agent"@
                            ||| f == "restartPolicy"@
                            ||| f == "runtimeConfig"@
                            ||| f == "dependencies"@
                            ||| f == "tags"@
                            ||| f == "controlInterfaceAccess"@
                            ||| f == "configs"@
                        }
                    &&& yaml_field(w, ystr("runtime"@)) is Some
                    &&& yaml_field(w, ystr("runtimeConfig"@)) is Some
                    &&& yaml_field(w, ystr("agent"@)) is Some
                }
        },
{
}

// ----------------------------------------------------------------------------
// Looking up keys in mappings
// ----------------------------------------------------------------------------

proof fn lemma_yaml_get_at(m: Seq<(YamlView, YamlView)>, k: YamlView, j: int)
    requires
        0 <= j < m.len(),
        m[j].0 == k,
        forall|i: int| 0 <= i < j ==> m[i].0 != k,
    ensures
        yaml_get(m, k) == Some(m[j].1),
    decreases j,
{
    if j > 0 {
        let t = m.drop_first();
        assert forall|i: int| 0 <= i < j - 1 implies t[i].0 != k by {
            assert(t[i] == m[i + 1]);
        }
        lemma_yaml_get_at(t, k, j - 1);
    }
}

proof fn lemma_yaml_get_absent(m: Seq<(YamlView, YamlView)>, k: YamlView)
    requires
        forall|i: int| 0 <= i < m.len() ==> m[i].0 != k,
    ensures
        yaml_get(m, k) is None,
    decreases m.len(),
{
    if m.len() > 0 {
        let t = m.drop_first();
        assert forall|i: int| 0 <= i < t.len() implies t[i].0 != k by {
            assert(t[i] == m[i + 1]);
        }
        lemma_yaml_get_absent(t, k);
    }
}

/// Looking up a name in the mapping that holds, under the name of each
/// entry of a list without repeated names, the value at the same position
/// of `vals`: the value of the entry of that name, if there is one.
proof fn lemma_keyed_lookup<V>(s: Seq<(String, V)>, vals: Seq<YamlView>, a: Seq<char>)
    requires
        keys_unique(s),
        vals.len() == s.len(),
    ensures
        yaml_get(Seq::new(s.len(), |k: int| (ystr(s[k].0@), vals[k])), ystr(a)) == if has_key(s, a) {
            Some(vals[index_of_key(s, a)])
        } else {
            None::<YamlView>
        },
        has_key(s, a) ==> 0 <= index_of_key(s, a) < s.len() && s[index_of_key(s, a)].0@ == a
            && entries_map(s).contains_key(a) && entries_map(s)[a] == s[index_of_key(s, a)].1,
        !has_key(s, a) ==> !entries_map(s).contains_key(a),
{
    let m = Seq::new(s.len(), |k: int| (ystr(s[k].0@), vals[k]));
    if has_key(s, a) {
        let j = choose|j: int| 0 <= j < s.len() && s[j].0@ == a;
        lemma_index_of_key(s, j);
        assert forall|i: int| 0 <= i < j implies m[i].0 != ystr(a) by {
            assert(s[i].0@ != s[j].0@);
        }
        lemma_yaml_get_at(m, ystr(a), j);
    } else {
        assert forall|i: int| 0 <= i < m.len() implies m[i].0 != ystr(a) by {
            if m[i].0 == ystr(a) {
                assert(s[i].0@ == a);
            }
        }
        lemma_yaml_get_absent(m, ystr(a));
    }
}

// ----------------------------------------------------------------------------
// Workload states in mapping form
// ----------------------------------------------------------------------------

/// The entries of a mapping; none for any other value.
pub open spec fn entries_of(v: YamlView) -> Seq<(YamlView, YamlView)> {
    match v {
        YamlView::Mapping(es) => es,
        _ => Seq::empty(),
    }
}

/// The entry at position `z` of the mapping at position `y` of the mapping
/// at position `x` of `d`.
pub open spec fn entry3(d: YamlView, x: int, y: int, z: int) -> (YamlView, YamlView) {
    entries_of(entries_of(entries_of(d)[x].1)[y].1)[z]
}

/// The value found by reading the mapping `d` under the key `a`, then under
/// `n`, then under `i`.
pub open spec fn dict_at3(d: YamlView, a: Seq<char>, n: Seq<char>, i: Seq<char>) -> Option<YamlView> {
    match yaml_field(d, ystr(a)) {
        Some(x) => match yaml_field(x, ystr(n)) {
            Some(y) => yaml_field(y, ystr(i)),
            None => None,
        },
        None => None,
    }
}

/// The mapping form of a collection of workload states, as
/// `WorkloadStateCollection::get_as_dict` gives it, holds under agent name,
/// workload name and workload id the mapping form (`to_dict`) of exactly
/// the execution state stored for that instance, and nothing where no state
/// is stored.
pub proof fn law_states_dict_holds_each_state(c: WorkloadStateCollection)
    requires
        c.wf(),
    ensures
        forall|a: Seq<char>, n: Seq<char>, i: Seq<char>|
            #[trigger] dict_at3(states_dict(c.workload_states.entries@), a, n, i) == match c.lookup(a, n, i) {
                Some(e) => Some(execution_state_dict(e)),
                None => None::<YamlView>,
            },
        forall|x: int, y: int, z: int|
            #![trigger entry3(states_dict(c.workload_states.entries@), x, y, z)]
            0 <= x < entries_of(states_dict(c.workload_states.entries@)).len() && 0 <= y < entries_of(
                entries_of(states_dict(c.workload_states.entries@))[x].1,
            ).len() && 0 <= z < entries_of(
                entries_of(entries_of(states_dict(c.workload_states.entries@))[x].1)[y].1,
            ).len() ==> {
                let d = states_dict(c.workload_states.entries@);
                let a = entries_of(d)[x].0;
                let n = entries_of(entries_of(d)[x].1)[y].0;
                let e = entry3(d, x, y, z);
                &&& a is Str && n is Str && e.0 is Str
                &&& c.lookup(yaml_text(a), yaml_text(n), yaml_text(e.0)) is Some
                &&& e.1 == execution_state_dict(c.lookup(yaml_text(a), yaml_text(n), yaml_text(e.0)).unwrap())
            },
{
    let s = c.workload_states.entries@;
    assert forall|a: Seq<char>, n: Seq<char>, i: Seq<char>|
        #[trigger] dict_at3(states_dict(s), a, n, i) == match c.lookup(a, n, i) {
            Some(e) => Some(execution_state_dict(e)),
            None => None::<YamlView>,
        } by {
        let va = Seq::new(s.len(), |k: int| names_dict(s[k].1.entries@));
        assert(states_dict(s)->Mapping_0 =~= Seq::new(s.len(), |k: int| (ystr(s[k].0@), va[k])));
        lemma_keyed_lookup(s, va, a);
        if has_key(s, a) {
            let x = index_of_key(s, a);
            assert(s[x].1.wf());
            let ns = s[x].1.entries@;
            let vn = Seq::new(ns.len(), |k: int| ids_dict(ns[k].1.entries@));
            assert(names_dict(ns)->Mapping_0 =~= Seq::new(ns.len(), |k: int| (ystr(ns[k].0@), vn[k])));
            lemma_keyed_lookup(ns, vn, n);
            if has_key(ns, n) {
                let y = index_of_key(ns, n);
                assert(ns[y].1.wf());
                let is = ns[y].1.entries@;
                let vi = Seq::new(is.len(), |k: int| execution_state_dict(is[k].1));
                assert(ids_dict(is)->Mapping_0 =~= Seq::new(is.len(), |k: int| (ystr(is[k].0@), vi[k])));
                lemma_keyed_lookup(is, vi, i);
            }
        }
    }
    let d = states_dict(s);
    assert forall|x: int, y: int, z: int|
        #![trigger entry3(d, x, y, z)]
        0 <= x < entries_of(d).len() && 0 <= y < entries_of(entries_of(d)[x].1).len() && 0 <= z
            < entries_of(entries_of(entries_of(d)[x].1)[y].1).len() implies {
        let a = entries_of(d)[x].0;
        let n = entries_of(entries_of(d)[x].1)[y].0;
        let e = entry3(d, x, y, z);
        &&& a is Str && n is Str && e.0 is Str
        &&& c.lookup(yaml_text(a), yaml_text(n), yaml_text(e.0)) is Some
        &&& e.1 == execution_state_dict(c.lookup(yaml_text(a), yaml_text(n), yaml_text(e.0)).unwrap())
    } by {
        let ns = s[x].1.entries@;
        assert(s[x].1.wf());
        let is = ns[y].1.entries@;
        assert(ns[y].1.wf());
        lemma_index_of_key(s, x);
        lemma_index_of_key(ns, y);
        lemma_index_of_key(is, z);
    }
}

// ----------------------------------------------------------------------------
// Agents in the mapping form of the complete state
// ----------------------------------------------------------------------------

/// The entries of the `agents` mapping of a complete state's mapping form.
pub open spec fn agents_entries(cs: CompleteState) -> Seq<(YamlView, YamlView)> {
    match yaml_field(complete_state_dict(cs), ystr("agents"@)) {
        Some(v) => entries_of(v),
        None => Seq::empty(),
    }
}

/// The mapping form of a complete state, as `CompleteState::to_dict` gives
/// it, holds under `agents` a mapping of every agent that `get_agents`
/// gives, in order, under its name, with a mapping of exactly that agent's
/// attributes and values. An agent that reports its CPU usage or its free
/// memory has it there, under `cpu_usage` or `free_memory`, in decimal.
pub proof fn law_agents_in_complete_state_dict(cs: CompleteState)
    ensures
        yaml_field(complete_state_dict(cs), ystr("agents"@)) matches Some(YamlView::Mapping(_)),
        agents_entries(cs).len() == agents_view(cs.complete_state).len(),
        forall|i: int|
            0 <= i < agents_entries(cs).len() ==> {
                let e = #[trigger] agents_entries(cs)[i];
                let a = agents_view(cs.complete_state)[i];
                &&& e.0 == ystr(a.0)
                &&& e.1 is Mapping
                &&& entries_of(e.1).len() == a.1.len()
                &&& forall|j: int|
                    0 <= j < a.1.len() ==> #[trigger] entries_of(e.1)[j] == (ystr(a.1[j].0), ystr(a.1[j].1))
            },
        cs.complete_state.agents matches Some(m) ==> forall|i: int|
            0 <= i < m.entries@.len() ==> {
                let e = #[trigger] agents_entries(cs)[i];
                let attrs = m.entries@[i].1;
                &&& e.0 == ystr(m.entries@[i].0@)
                &&& attrs.cpu_usage matches Some(c) ==> entries_of(e.1).contains(
                    (ystr("cpu_usage"@), ystr(decimal(c as nat))),
                )
                &&& attrs.free_memory matches Some(f) ==> entries_of(e.1).contains(
                    (ystr("free_memory"@), ystr(decimal(f as nat))),
                )
            },
{
    reveal_strlit("apiVersion");
    reveal_strlit("workloads");
    reveal_strlit("configs");
    reveal_strlit("agents");
    let top = complete_state_dict(cs)->Mapping_0;
    assert(top[0].0 == ystr("apiVersion"@));
    assert("apiVersion"@.len() != "agents"@.len());
    assert(top[0].0 != ystr("agents"@));
    assert(top[1].0 == ystr("workloads"@));
    assert("workloads"@.len() != "agents"@.len());
    assert(top[1].0 != ystr("agents"@));
    assert(top[2].0 != ystr("agents"@));
    lemma_yaml_get_at(top, ystr("agents"@), 3);
    match cs.complete_state.agents {
        Some(m) => {
            assert forall|i: int| 0 <= i < m.entries@.len() implies {
                let e = #[trigger] agents_entries(cs)[i];
                let attrs = m.entries@[i].1;
                &&& e.0 == ystr(m.entries@[i].0@)
                &&& attrs.cpu_usage matches Some(c) ==> entries_of(e.1).contains(
                    (ystr("cpu_usage"@), ystr(decimal(c as nat))),
                )
                &&& attrs.free_memory matches Some(f) ==> entries_of(e.1).contains(
                    (ystr("free_memory"@), ystr(decimal(f as nat))),
                )
            } by {
                let e = agents_entries(cs)[i];
                let attrs = m.entries@[i].1;
                if let Some(c) = attrs.cpu_usage {
                    assert(entries_of(e.1)[0] == (ystr("cpu_usage"@), ystr(decimal(c as nat))));
                }
                if let Some(f) = attrs.free_memory {
                    let j: int = if attrs.cpu_usage is Some { 1 } else { 0 };
                    assert(entries_of(e.1)[j] == (ystr("free_memory"@), ystr(decimal(f as nat))));
                }
            }
        },
        None => {},
    }
}

} // verus!
