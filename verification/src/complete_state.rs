//! The complete state of the cluster as the SDK presents it: the desired
//! state with its workloads and configs, the workload states and the agents.

use vstd::prelude::*;
use crate::ank_base::{self, DeepCopy, ConfigItem};
use crate::config::{config_value_ok, yaml_to_config, to_config_item};
use crate::keyed::KeyedList;
use crate::strings::decimal;
use crate::config::{config_to_yaml, from_config_item};
use crate::manifest::{Manifest, manifest_workloads};
use crate::workload::{Workload, same_workload, workload_mask, workload_dict, restart_policy_valid,
    dependency_codes_valid};
use crate::workload_builder::{build_outcome, build_succeeds, built_workload};
use crate::workload_dict::{builder_from_dict, workload_dict_shaped, yaml_text, mapping_entries};
use crate::workload_state::{lookup_converted, states_dict, agents_converted};
use crate::keyed::{lookup3, wf3};
use crate::yaml::{ystr, yaml_field, pairs_view, lemma_pairs_view_push, lemma_pairs_view_index,
    lemma_pairs_view_len};
use crate::workload_state::WorkloadStateCollection;
use crate::texts::{DebugText, complete_state_text};
use crate::yaml::{YamlValue, YamlView};

verus! {

/// The API version that the SDK writes into the states it makes.
pub open spec fn supported_api_version() -> Seq<char> {
    "v0.1"@
}

/// The API version of a complete state (empty when there is no desired
/// state).
pub open spec fn api_version_of(cs: ank_base::CompleteState) -> Seq<char> {
    match cs.desired_state {
        Some(s) => s.api_version@,
        None => Seq::empty(),
    }
}

/// The workloads of the desired state of a complete state, by name.
pub open spec fn desired_workloads(cs: ank_base::CompleteState) -> Map<Seq<char>, ank_base::Workload> {
    match cs.desired_state {
        Some(s) => match s.workloads {
            Some(w) => w.map(),
            None => Map::empty(),
        },
        None => Map::empty(),
    }
}

/// A map to YAML values, with the values taken by their views.
pub open spec fn yaml_values_map(m: Map<Seq<char>, YamlValue>) -> Map<Seq<char>, YamlView> {
    Map::new(|k: Seq<char>| m.contains_key(k), |k: Seq<char>| m[k]@)
}

/// The entries `s` as a map to the views of their values; a later entry for
/// a name replaces an earlier one.
pub open spec fn named_values_map(s: Seq<(String, YamlValue)>) -> Map<Seq<char>, YamlView>
    decreases s.len(),
{
    if s.len() == 0 {
        Map::empty()
    } else {
        named_values_map(s.drop_last()).insert(s.last().0@, s.last().1@)
    }
}

/// A map to YAML values turned into a map to their protocol forms.
pub open spec fn as_config_items(m: Map<Seq<char>, YamlView>) -> Map<Seq<char>, ank_base::ConfigView> {
    Map::new(|k: Seq<char>| m.contains_key(k), |k: Seq<char>| yaml_to_config(m[k]))
}

/// A map to config items, with the items taken by their views.
pub open spec fn config_items_map(m: Map<Seq<char>, ConfigItem>) -> Map<Seq<char>, ank_base::ConfigView> {
    Map::new(|k: Seq<char>| m.contains_key(k), |k: Seq<char>| m[k].deep_view())
}

/// The entries of a list of named YAML values as views, in order.
pub open spec fn named_values_view(s: Seq<(String, YamlValue)>) -> Seq<(Seq<char>, YamlView)> {
    Seq::new(s.len(), |i: int| (s[i].0@, s[i].1@))
}

/// What an agent reports, as named texts: its CPU usage and its free
/// memory, each when it is reported.
pub open spec fn agent_attributes_view(a: ank_base::AgentAttributes) -> Seq<(Seq<char>, Seq<char>)> {
    (if a.cpu_usage is Some {
        seq![("cpu_usage"@, decimal(a.cpu_usage.unwrap() as nat))]
    } else {
        Seq::empty()
    }) + (if a.free_memory is Some {
        seq![("free_memory"@, decimal(a.free_memory.unwrap() as nat))]
    } else {
        Seq::empty()
    })
}

/// The agents of a complete state with what they report, in order.
pub open spec fn agents_view(cs: ank_base::CompleteState) -> Seq<
    (Seq<char>, Seq<(Seq<char>, Seq<char>)>),
> {
    match cs.agents {
        Some(m) => Seq::new(
            m.entries@.len(),
            |i: int| (m.entries@[i].0@, agent_attributes_view(m.entries@[i].1)),
        ),
        None => Seq::empty(),
    }
}


/// The complete state of the cluster.
#[derive(Debug)]
pub struct CompleteState {
    /// The state as the protocol carries it.
    pub complete_state: ank_base::CompleteState,
    /// The workloads of the desired state, in the order they were added.
    pub workloads: Vec<Workload>,
    /// The workload states.
    pub workload_state_collection: WorkloadStateCollection,
    /// The configs by name.
    pub configs: KeyedList<YamlValue>,
}

impl CompleteState {
    /// No name occurs twice in any of the state's keyed collections.
    pub open spec fn wf(&self) -> bool {
        &&& self.configs.wf()
        &&& self.workload_state_collection.wf()
        &&& (self.complete_state.desired_state matches Some(s) ==> (s.workloads matches Some(w)
            ==> w.wf()) && (s.configs matches Some(c) ==> c.wf()))
    }

    /// An empty complete state whose desired state has the supported API
    /// version.
    pub fn new() -> (r: Self)
        ensures
            r.wf(),
            r.complete_state.desired_state matches Some(s) && s.api_version@
                == supported_api_version() && s.workloads is None && s.configs is None,
            r.complete_state.workload_states is None,
            r.complete_state.agents is None,
            r.workloads@.len() == 0,
            r.configs.entries@.len() == 0,
            r.workload_state_collection.workload_states.entries@.len() == 0,
    {
        let mut obj = CompleteState {
            complete_state: ank_base::CompleteState::empty(),
            workloads: Vec::new(),
            workload_state_collection: WorkloadStateCollection::new(),
            configs: KeyedList::new(),
        };
        obj.set_api_version("v0.1");
        obj
    }

    /// Sets the API version of the desired state, making a desired state
    /// without workloads and configs if there is none.
    pub fn set_api_version(&mut self, api_version: &str)
        ensures
            final(self).complete_state.desired_state matches Some(s) && s.api_version@
                == api_version@ && match old(self).complete_state.desired_state {
                Some(o) => s.workloads == o.workloads && s.configs == o.configs,
                None => s.workloads is None && s.configs is None,
            },
            final(self).complete_state.workload_states == old(self).complete_state.workload_states,
            final(self).complete_state.agents == old(self).complete_state.agents,
            final(self).workloads == old(self).workloads,
            final(self).workload_state_collection == old(self).workload_state_collection,
            final(self).configs == old(self).configs,
    {
        let desired = self.complete_state.desired_state.take();
        self.complete_state.desired_state = match desired {
            Some(s) => Some(
                ank_base::State {
                    api_version: api_version.to_owned(),
                    workloads: s.workloads,
                    configs: s.configs,
                },
            ),
            None => Some(
                ank_base::State {
                    api_version: api_version.to_owned(),
                    workloads: None,
                    configs: None,
                },
            ),
        };
    }

    /// The API version of the desired state; empty when there is no desired
    /// state.
    pub fn get_api_version(&self) -> (r: String)
        ensures
            r@ == api_version_of(self.complete_state),
    {
        match &self.complete_state.desired_state {
            Some(s) => s.api_version.clone(),
            None => String::new(),
        }
    }

    /// The state as the protocol carries it.
    pub fn to_proto(&self) -> (r: ank_base::CompleteState)
        ensures
            r.deep_view() == self.complete_state.deep_view(),
    {
        self.complete_state.deep_copy()
    }

    /// The text of the state in the protocol form (see `complete_state_text`).
    pub fn to_string(&self) -> (r: String)
        ensures
            r@ == complete_state_text(self.complete_state.deep_view()),
    {
        let p = self.to_proto();
        p.debug_text()
    }

    /// Adds a workload: it is appended to the workloads, and the desired
    /// state, if there is one, holds its configuration under its name.
    pub fn add_workload(&mut self, workload: Workload)
        requires
            old(self).wf(),
        ensures
            final(self).wf(),
            final(self).workloads@ == old(self).workloads@.push(workload),
            match old(self).complete_state.desired_state {
                Some(o) => final(self).complete_state.desired_state matches Some(s)
                    && s.api_version == o.api_version && s.configs == o.configs
                    && s.workloads is Some && desired_workloads(final(self).complete_state)
                    == desired_workloads(old(self).complete_state).insert(
                    workload.name@,
                    desired_workloads(final(self).complete_state)[workload.name@],
                ) && desired_workloads(final(self).complete_state)[workload.name@].deep_view()
                    == workload.workload.deep_view(),
                None => final(self).complete_state.desired_state is None,
            },
            final(self).complete_state.workload_states == old(self).complete_state.workload_states,
            final(self).complete_state.agents == old(self).complete_state.agents,
            final(self).workload_state_collection == old(self).workload_state_collection,
            final(self).configs == old(self).configs,
    {
        let proto = workload.to_proto();
        let name = workload.name.clone();
        self.workloads.push(workload);
        let desired = self.complete_state.desired_state.take();
        match desired {
            Some(s) => {
                let mut ws = match s.workloads {
                    Some(w) => w,
                    None => KeyedList::new(),
                };
                ws.insert(name, proto);
                self.complete_state.desired_state = Some(
                    ank_base::State {
                        api_version: s.api_version,
                        workloads: Some(ws),
                        configs: s.configs,
                    },
                );
            },
            None => {},
        }
    }

    /// The first workload named `workload_name`, if there is one.
    pub fn get_workload(&self, workload_name: &str) -> (r: Option<Workload>)
        ensures
            match r {
                Some(w) => exists|i: int|
                    0 <= i < self.workloads@.len() && self.workloads@[i].name@ == workload_name@
                        && (forall|j: int|
                        0 <= j < i ==> (#[trigger] self.workloads@[j]).name@ != workload_name@)
                        && same_workload(w, self.workloads@[i]),
                None => forall|i: int|
                    0 <= i < self.workloads@.len() ==> (#[trigger] self.workloads@[i]).name@
                        != workload_name@,
            },
    {
        let mut i: usize = 0;
        while i < self.workloads.len()
            invariant
                0 <= i <= self.workloads@.len(),
                forall|j: int| 0 <= j < i ==> (#[trigger] self.workloads@[j]).name@ != workload_name@,
            decreases self.workloads@.len() - i,
        {
            if crate::strings::str_equal(self.workloads[i].name.as_str(), workload_name) {
                return Some(self.workloads[i].duplicate());
            }
            i = i + 1;
        }
        None
    }

    /// Copies of the workloads, in order.
    pub fn get_workloads(&self) -> (r: Vec<Workload>)
        ensures
            r@.len() == self.workloads@.len(),
            forall|i: int| 0 <= i < r@.len() ==> same_workload(#[trigger] r@[i], self.workloads@[i]),
    {
        let mut out: Vec<Workload> = Vec::new();
        let mut i: usize = 0;
        while i < self.workloads.len()
            invariant
                0 <= i <= self.workloads@.len(),
                out@.len() == i,
                forall|j: int| 0 <= j < i ==> same_workload(#[trigger] out@[j], self.workloads@[j]),
            decreases self.workloads@.len() - i,
        {
            out.push(self.workloads[i].duplicate());
            i = i + 1;
        }
        out
    }

    /// The workload states.
    pub fn get_workload_states(&self) -> (r: &WorkloadStateCollection)
        ensures
            *r == self.workload_state_collection,
    {
        &self.workload_state_collection
    }

    /// The agents with what they report (CPU usage, free memory), as text,
    /// in order.
    pub fn get_agents(&self) -> (r: Vec<(String, Vec<(String, String)>)>)
        ensures
            r.deep_view() == agents_view(self.complete_state),
    {
        let mut out: Vec<(String, Vec<(String, String)>)> = Vec::new();
        match &self.complete_state.agents {
            Some(m) => {
                let ghost target = agents_view(self.complete_state);
                let mut i: usize = 0;
                while i < m.entries.len()
                    invariant
                        self.complete_state.agents == Some(*m),
                        target == agents_view(self.complete_state),
                        0 <= i <= m.entries@.len(),
                        out.deep_view() == target.take(i as int),
                    decreases m.entries@.len() - i,
                {
                    let a = m.entries[i].1;
                    let mut attrs: Vec<(String, String)> = Vec::new();
                    if let Some(cpu) = a.cpu_usage {
                        attrs.push(("cpu_usage".to_owned(), crate::strings::u64_to_text(cpu as u64)));
                    }
                    if let Some(mem) = a.free_memory {
                        attrs.push(("free_memory".to_owned(), crate::strings::u64_to_text(mem)));
                    }
                    proof {
                        assert(attrs.deep_view() =~= agent_attributes_view(a));
                    }
                    let ghost prev = out.deep_view();
                    let item = (m.entries[i].0.clone(), attrs);
                    out.push(item);
                    proof {
                        assert(out.deep_view() =~= prev.push(item.deep_view()));
                        assert(out.deep_view() =~= target.take(i + 1));
                    }
                    i = i + 1;
                }
                proof {
                    assert(target.take(i as int) =~= target);
                }
            },
            None => {
                proof {
                    assert(out.deep_view() =~= agents_view(self.complete_state));
                }
            },
        }
        out
    }

    /// Replaces the configs by `configs` (a later entry for a name replaces
    /// an earlier one); the desired state, if there is one, holds their
    /// protocol forms.
    pub fn set_configs(&mut self, configs: Vec<(String, YamlValue)>)
        requires
            old(self).wf(),
            forall|i: int| 0 <= i < configs@.len() ==> config_value_ok(#[trigger] configs@[i].1@),
        ensures
            final(self).wf(),
            yaml_values_map(final(self).configs.map()) == named_values_map(configs@),
            match old(self).complete_state.desired_state {
                Some(o) => final(self).complete_state.desired_state matches Some(s)
                    && s.api_version == o.api_version && s.workloads == o.workloads
                    && (s.configs matches Some(c) && config_items_map(c.map()) == as_config_items(
                    named_values_map(configs@),
                )),
                None => final(self).complete_state.desired_state is None,
            },
            final(self).complete_state.workload_states == old(self).complete_state.workload_states,
            final(self).complete_state.agents == old(self).complete_state.agents,
            final(self).workloads == old(self).workloads,
            final(self).workload_state_collection == old(self).workload_state_collection,
    {
        let mut values: KeyedList<YamlValue> = KeyedList::new();
        let mut i: usize = 0;
        proof {
            assert(configs@.take(0) =~= Seq::<(String, YamlValue)>::empty());
        }
        while i < configs.len()
            invariant
                0 <= i <= configs@.len(),
                values.wf(),
                yaml_values_map(values.map()) == named_values_map(configs@.take(i as int)),
                forall|k: Seq<char>| #[trigger] values.map().contains_key(k) ==> config_value_ok(
                    values.map()[k]@,
                ),
                forall|j: int| 0 <= j < configs@.len() ==> config_value_ok(#[trigger] configs@[j].1@),
            decreases configs@.len() - i,
        {
            proof {
                assert(configs@.take(i + 1).drop_last() =~= configs@.take(i as int));
            }
            let ghost prev = values.map();
            let v = configs[i].1.duplicate();
            values.insert(configs[i].0.clone(), v);
            proof {
                assert(yaml_values_map(values.map()) =~= yaml_values_map(prev).insert(
                    configs@[i as int].0@,
                    configs@[i as int].1@,
                ));
            }
            i = i + 1;
        }
        proof {
            assert(configs@.take(i as int) =~= configs@);
        }
        let mut items: KeyedList<ConfigItem> = KeyedList::new();
        let mut j: usize = 0;
        while j < values.entries.len()
            invariant
                values.wf(),
                forall|k: Seq<char>| #[trigger] values.map().contains_key(k) ==> config_value_ok(
                    values.map()[k]@,
                ),
                0 <= j <= values.entries@.len(),
                items.wf(),
                config_items_map(items.map()) == as_config_items(
                    yaml_values_map(crate::keyed::entries_map(values.entries@.take(j as int))),
                ),
            decreases values.entries@.len() - j,
        {
            proof {
                crate::keyed::lemma_index_of_key(values.entries@, j as int);
                assert(values.map().contains_key(values.entries@[j as int].0@));
                assert(config_value_ok(values.entries@[j as int].1@));
                crate::keyed::lemma_take_push_map(values.entries@, j as int);
            }
            let ghost prev = items.map();
            let c = to_config_item(&values.entries[j].1);
            items.insert(values.entries[j].0.clone(), c);
            proof {
                assert(config_items_map(items.map()) =~= config_items_map(prev).insert(
                    values.entries@[j as int].0@,
                    c.deep_view(),
                ));
                assert(as_config_items(
                    yaml_values_map(crate::keyed::entries_map(values.entries@.take(j + 1))),
                ) =~= as_config_items(
                    yaml_values_map(crate::keyed::entries_map(values.entries@.take(j as int))),
                ).insert(values.entries@[j as int].0@, yaml_to_config(values.entries@[j as int].1@)));
            }
            j = j + 1;
        }
        proof {
            assert(values.entries@.take(j as int) =~= values.entries@);
        }
        self.configs = values;
        let desired = self.complete_state.desired_state.take();
        match desired {
            Some(s) => {
                self.complete_state.desired_state = Some(
                    ank_base::State {
                        api_version: s.api_version,
                        workloads: s.workloads,
                        configs: Some(items),
                    },
                );
            },
            None => {},
        }
    }

    /// Copies of the configs with their names, in order.
    pub fn get_configs(&self) -> (r: Vec<(String, YamlValue)>)
        ensures
            named_values_view(r@) == named_values_view(self.configs.entries@),
    {
        let mut out: Vec<(String, YamlValue)> = Vec::new();
        let mut i: usize = 0;
        while i < self.configs.entries.len()
            invariant
                0 <= i <= self.configs.entries@.len(),
                named_values_view(out@) == named_values_view(self.configs.entries@).take(i as int),
            decreases self.configs.entries@.len() - i,
        {
            let ghost prev = out@;
            let item = (self.configs.entries[i].0.clone(), self.configs.entries[i].1.duplicate());
            out.push(item);
            proof {
                assert(out@ == prev.push(item));
                assert(named_values_view(out@) =~= named_values_view(prev).push(
                    (item.0@, item.1@),
                ));
                assert(named_values_view(out@) =~= named_values_view(self.configs.entries@).take(
                    i + 1,
                ));
            }
            i = i + 1;
        }
        proof {
            assert(named_values_view(self.configs.entries@).take(i as int) =~= named_values_view(
                self.configs.entries@,
            ));
        }
        out
    }
}


/// The workloads by name with their configurations taken by their deep
/// views; a later workload with a name replaces an earlier one.
pub open spec fn workloads_by_name(ws: Seq<Workload>) -> Map<Seq<char>, ank_base::WorkloadView>
    decreases ws.len(),
{
    if ws.len() == 0 {
        Map::empty()
    } else {
        workloads_by_name(ws.drop_last()).insert(ws.last().name@, ws.last().workload.deep_view())
    }
}

/// A map of protocol workloads taken by their deep views.
pub open spec fn workload_views(m: Map<Seq<char>, ank_base::Workload>) -> Map<Seq<char>, ank_base::WorkloadView> {
    Map::new(|k: Seq<char>| m.contains_key(k), |k: Seq<char>| m[k].deep_view())
}

/// The configs of the desired state of a protocol state, in YAML form, in
/// order.
pub open spec fn proto_configs_yaml(cs: ank_base::CompleteState) -> Seq<(Seq<char>, YamlView)> {
    match cs.desired_state {
        Some(s) => match s.configs {
            Some(c) => Seq::new(
                c.entries@.len(),
                |i: int| (c.entries@[i].0@, config_to_yaml(c.entries@[i].1.deep_view())),
            ),
            None => Seq::empty(),
        },
        None => Seq::empty(),
    }
}

/// The workloads of the desired state of a protocol state, in order.
pub open spec fn proto_workload_entries(cs: ank_base::CompleteState) -> Seq<(String, ank_base::Workload)> {
    match cs.desired_state {
        Some(s) => match s.workloads {
            Some(w) => w.entries@,
            None => Seq::empty(),
        },
        None => Seq::empty(),
    }
}

/// `r` is the SDK form of the protocol state `proto`: it holds `proto`, the
/// configs of its desired state in YAML form, its workloads without masks,
/// and its workload states.
pub open spec fn state_from_proto(r: CompleteState, proto: ank_base::CompleteState) -> bool {
    &&& r.complete_state == proto
    &&& named_values_view(r.configs.entries@) == proto_configs_yaml(proto)
    &&& r.workloads@.len() == proto_workload_entries(proto).len()
    &&& forall|i: int|
        0 <= i < r.workloads@.len() ==> {
            let e = #[trigger] proto_workload_entries(proto)[i];
            &&& r.workloads@[i].name@ == e.0@
            &&& r.workloads@[i].main_mask@ == workload_mask(e.0@)
            &&& r.workloads@[i].mask_view() == Seq::<Seq<char>>::empty()
            &&& r.workloads@[i].workload.deep_view() == e.1.deep_view()
        }
    &&& forall|a: Seq<char>, n: Seq<char>, i: Seq<char>|
        #[trigger] r.workload_state_collection.lookup(a, n, i) == match proto.workload_states {
            Some(m) => lookup_converted(lookup3(m.agent_state_map, a, n, i)),
            None => None,
        }
    &&& match proto.workload_states {
        Some(m) => agents_converted(
            m.agent_state_map.entries@,
            r.workload_state_collection.workload_states.entries@,
        ),
        None => r.workload_state_collection.workload_states.entries@.len() == 0,
    }
}

/// No name occurs twice in the keyed collections of a protocol state.
pub open spec fn proto_wf(cs: ank_base::CompleteState) -> bool {
    &&& (cs.desired_state matches Some(s) ==> (s.workloads matches Some(w) ==> w.wf()) && (
    s.configs matches Some(c) ==> c.wf()))
    &&& (cs.workload_states matches Some(m) ==> wf3(m.agent_state_map))
}

/// A workload entry of a manifest that can be loaded: named by a string, with
/// the shape of a workload, and building.
pub open spec fn loadable_workload_entry(e: (YamlView, YamlView)) -> bool {
    &&& e.0 is Str
    &&& e.1 matches YamlView::Mapping(d) && workload_dict_shaped(d) && forall|
        b: crate::workload_builder::WorkloadBuilder,
    |
        builder_from_dict(b, yaml_text(e.0), d) ==> build_succeeds(b)
}

/// The workload `w` is what building the workload `name` from its mapping
/// form `d` gives.
pub open spec fn built_from_dict(name: Seq<char>, d: Seq<(YamlView, YamlView)>, w: Workload) -> bool {
    exists|b: crate::workload_builder::WorkloadBuilder|
        builder_from_dict(b, name, d) && built_workload(b, w)
}

/// A manifest from which a complete state can be made: it has an API version
/// as a string, its workloads are named by strings, each has the shape of a
/// workload and builds, and its configs are named by strings and can be
/// configs.
pub open spec fn manifest_loadable(m: YamlView) -> bool {
    &&& yaml_field(m, ystr("apiVersion"@)) matches Some(v) && v is Str
    &&& (yaml_field(m, ystr("workloads"@)) matches Some(w) ==> (w matches YamlView::Mapping(ws)
        && forall|i: int|
        0 <= i < ws.len() ==> loadable_workload_entry(#[trigger] ws[i])))
    &&& (yaml_field(m, ystr("configs"@)) matches Some(c) ==> (c matches YamlView::Mapping(cs)
        && forall|i: int| 0 <= i < cs.len() ==> (#[trigger] cs[i]).0 is Str && config_value_ok(cs[i].1)))
}

/// The configs of a manifest as a map from names to values.
pub open spec fn manifest_configs_map(m: YamlView) -> Map<Seq<char>, YamlView> {
    named_views_map(mapping_entries(yaml_field(m, ystr("configs"@))))
}

/// Mapping entries with string keys as a map from names to values; a later
/// entry for a name replaces an earlier one.
pub open spec fn named_views_map(es: Seq<(YamlView, YamlView)>) -> Map<Seq<char>, YamlView>
    decreases es.len(),
{
    if es.len() == 0 {
        Map::empty()
    } else {
        named_views_map(es.drop_last()).insert(yaml_text(es.last().0), es.last().1)
    }
}

/// `r` holds what the manifest `m` describes: its API version, its
/// workloads (each built from its mapping form, in order) and its configs,
/// and nothing else.
pub open spec fn holds_manifest(r: CompleteState, m: YamlView) -> bool {
    &&& r.wf()
    &&& api_version_of(r.complete_state) == yaml_text(yaml_field(m, ystr("apiVersion"@)).unwrap())
    &&& r.workloads@.len() == manifest_workloads(m).len()
    &&& forall|i: int|
        0 <= i < r.workloads@.len() ==> built_from_dict(
            yaml_text(manifest_workloads(m)[i].0),
            mapping_entries(Some(manifest_workloads(m)[i].1)),
            #[trigger] r.workloads@[i],
        )
    &&& workload_views(desired_workloads(r.complete_state)) == workloads_by_name(r.workloads@)
    &&& yaml_values_map(r.configs.map()) == manifest_configs_map(m)
    &&& r.complete_state.desired_state matches Some(s) && match yaml_field(m, ystr("configs"@)) {
        Some(_) => s.configs matches Some(c) && config_items_map(c.map()) == as_config_items(
            manifest_configs_map(m),
        ),
        None => s.configs is None,
    }
    &&& r.complete_state.workload_states is None
    &&& r.complete_state.agents is None
    &&& r.workload_state_collection.workload_states.entries@.len() == 0
}

/// `r` holds the workloads `workloads`, in order, under the supported API
/// version, and nothing else.
pub open spec fn holds_workloads(r: CompleteState, workloads: Seq<Workload>) -> bool {
    &&& r.wf()
    &&& r.workloads@ == workloads
    &&& api_version_of(r.complete_state) == supported_api_version()
    &&& workload_views(desired_workloads(r.complete_state)) == workloads_by_name(workloads)
    &&& r.configs.entries@.len() == 0
    &&& r.complete_state.workload_states is None
    &&& r.complete_state.agents is None
    &&& r.workload_state_collection.workload_states.entries@.len() == 0
}

/// `r` holds the configs `configs` (a later entry for a name replaces an
/// earlier one) under the supported API version, and nothing else.
pub open spec fn holds_configs(r: CompleteState, configs: Seq<(String, YamlValue)>) -> bool {
    &&& r.wf()
    &&& r.workloads@.len() == 0
    &&& api_version_of(r.complete_state) == supported_api_version()
    &&& yaml_values_map(r.configs.map()) == named_values_map(configs)
    &&& r.complete_state.desired_state matches Some(s) && s.workloads is None && (s.configs matches Some(
        c,
    ) && config_items_map(c.map()) == as_config_items(named_values_map(configs)))
    &&& r.complete_state.workload_states is None
    &&& r.complete_state.agents is None
    &&& r.workload_state_collection.workload_states.entries@.len() == 0
}

/// Whether the workload entry `(name, value)` of a manifest can be loaded.
fn is_loadable_workload_entry(name: &YamlValue, value: &YamlValue) -> (r: bool)
    ensures
        r == loadable_workload_entry((name@, value@)),
{
    let n = match name.as_str() {
        Some(n) => n,
        None => {
            return false;
        },
    };
    let d = match value.as_mapping() {
        Some(d) => d,
        None => {
            return false;
        },
    };
    if !crate::workload_dict::is_workload_dict_shaped(d) {
        return false;
    }
    let built = Workload::new_from_dict(n.as_str(), d);
    proof {
        let b0 = choose|b: crate::workload_builder::WorkloadBuilder|
            builder_from_dict(b, n@, pairs_view(d@)) && build_outcome(b, built);
        assert forall|b: crate::workload_builder::WorkloadBuilder|
            builder_from_dict(b, n@, pairs_view(d@)) implies build_succeeds(b) == build_succeeds(
            b0,
        ) by {}
        assert(built is Ok <==> build_succeeds(b0));
    }
    built.is_ok()
}

/// Whether a complete state can be made from the manifest document `m`: see
/// [`manifest_loadable`].
#[verifier::loop_isolation(false)]
pub fn is_manifest_loadable(m: &YamlValue) -> (r: bool)
    ensures
        r == manifest_loadable(m@),
{
    match m.get("apiVersion") {
        Some(v) => {
            if v.as_str().is_none() {
                return false;
            }
        },
        None => {
            return false;
        },
    }
    match m.get("workloads") {
        Some(w) => match w.as_mapping() {
            Some(ws) => {
                proof {
                    lemma_pairs_view_len(ws@);
                }
                let mut i: usize = 0;
                while i < ws.len()
                    invariant
                        0 <= i <= ws@.len(),
                        forall|k: int|
                            0 <= k < i ==> loadable_workload_entry(#[trigger] pairs_view(ws@)[k]),
                    decreases ws@.len() - i,
                {
                    proof {
                        lemma_pairs_view_index(ws@, i as int);
                    }
                    if !is_loadable_workload_entry(&ws[i].0, &ws[i].1) {
                        proof {
                            let wv = yaml_field(m@, ystr("workloads"@)).unwrap();
                            assert(wv->Mapping_0 == pairs_view(ws@));
                            assert(!loadable_workload_entry(wv->Mapping_0[i as int]));
                        }
                        return false;
                    }
                    i = i + 1;
                }
            },
            None => {
                return false;
            },
        },
        None => {},
    }
    match m.get("configs") {
        Some(c) => match c.as_mapping() {
            Some(cs) => {
                proof {
                    lemma_pairs_view_len(cs@);
                }
                let mut i: usize = 0;
                while i < cs.len()
                    invariant
                        0 <= i <= cs@.len(),
                        forall|k: int|
                            0 <= k < i ==> (#[trigger] pairs_view(cs@)[k]).0 is Str
                                && config_value_ok(pairs_view(cs@)[k].1),
                    decreases cs@.len() - i,
                {
                    proof {
                        lemma_pairs_view_index(cs@, i as int);
                    }
                    if cs[i].0.as_str().is_none() || !crate::config::is_config_value_ok(&cs[i].1) {
                        proof {
                            let cv = yaml_field(m@, ystr("configs"@)).unwrap();
                            assert(cv->Mapping_0 == pairs_view(cs@));
                            assert(!((cv->Mapping_0[i as int]).0 is Str && config_value_ok(
                                cv->Mapping_0[i as int].1,
                            )));
                        }
                        return false;
                    }
                    i = i + 1;
                }
            },
            None => {
                return false;
            },
        },
        None => {},
    }
    true
}

impl CompleteState {
    /// A complete state holding the workloads `workloads`, in order.
    pub fn new_from_workloads(workloads: Vec<Workload>) -> (r: Self)
        ensures
            holds_workloads(r, workloads@),
    {
        let mut obj = Self::new();
        let mut rest = workloads;
        let ghost all = rest@;
        proof {
            assert(obj.workloads@ + rest@ =~= all);
            assert(workload_views(desired_workloads(obj.complete_state)) =~= workloads_by_name(
                obj.workloads@,
            ));
        }
        while rest.len() > 0
            invariant
                obj.wf(),
                obj.workloads@ + rest@ == all,
                obj.complete_state.desired_state matches Some(s) && s.api_version@
                    == supported_api_version() && s.configs is None,
                workload_views(desired_workloads(obj.complete_state)) == workloads_by_name(
                    obj.workloads@,
                ),
                obj.configs.entries@.len() == 0,
                obj.complete_state.workload_states is None,
                obj.complete_state.agents is None,
                obj.workload_state_collection.workload_states.entries@.len() == 0,
            decreases rest@.len(),
        {
            let w = rest.remove(0);
            let ghost before = obj.workloads@;
            let ghost old_map = desired_workloads(obj.complete_state);
            obj.add_workload(w);
            proof {
                assert(obj.workloads@.drop_last() =~= before);
                assert(workload_views(desired_workloads(obj.complete_state)) =~= workload_views(
                    old_map,
                ).insert(w.name@, w.workload.deep_view()));
                assert(obj.workloads@ + rest@ =~= all);
            }
        }
        proof {
            assert(obj.workloads@ =~= all);
        }
        obj
    }

    /// A complete state holding the configs `configs`.
    pub fn new_from_configs(configs: Vec<(String, YamlValue)>) -> (r: Self)
        requires
            forall|i: int| 0 <= i < configs@.len() ==> config_value_ok(#[trigger] configs@[i].1@),
        ensures
            holds_configs(r, configs@),
    {
        let mut obj = Self::new();
        obj.set_configs(configs);
        obj
    }

    /// The SDK form of a complete state received from the cluster: its
    /// configs in YAML form, its workloads without masks, and its workload
    /// states.
    #[verifier::spinoff_prover]
    pub fn new_from_proto(proto: ank_base::CompleteState) -> (r: Self)
        requires
            proto_wf(proto),
        ensures
            r.wf(),
            state_from_proto(r, proto),
    {
        let mut obj = Self::new();
        let mut config_entries: Vec<(String, YamlValue)> = Vec::new();
        let mut workloads: Vec<Workload> = Vec::new();
        let ghost cfg_target = proto_configs_yaml(proto);
        let ghost wl_entries = proto_workload_entries(proto);
        match &proto.desired_state {
            Some(s) => {
                match &s.configs {
                    Some(c) => {
                        let mut i: usize = 0;
                        while i < c.entries.len()
                            invariant
                                proto.desired_state == Some(*s),
                                s.configs == Some(*c),
                                cfg_target == proto_configs_yaml(proto),
                                0 <= i <= c.entries@.len(),
                                named_values_view(config_entries@) == cfg_target.take(i as int),
                                crate::keyed::same_keys(config_entries@, c.entries@.take(i as int)),
                            decreases c.entries@.len() - i,
                        {
                            let ghost prev = config_entries@;
                            let item = (c.entries[i].0.clone(), from_config_item(&c.entries[i].1));
                            config_entries.push(item);
                            proof {
                                assert(config_entries@ == prev.push(item));
                                assert(named_values_view(config_entries@) =~= cfg_target.take(i + 1));
                            }
                            i = i + 1;
                        }
                        proof {
                            assert(c.entries@.take(i as int) =~= c.entries@);
                            assert(cfg_target.take(i as int) =~= cfg_target);
                            crate::keyed::lemma_same_keys(c.entries@, config_entries@);
                        }
                    },
                    None => {
                        proof {
                            assert(named_values_view(config_entries@) =~= cfg_target);
                        }
                    },
                }
                match &s.workloads {
                    Some(w) => {
                        let mut i: usize = 0;
                        while i < w.entries.len()
                            invariant
                                proto.desired_state == Some(*s),
                                s.workloads == Some(*w),
                                wl_entries == proto_workload_entries(proto),
                                0 <= i <= w.entries@.len(),
                                workloads@.len() == i,
                                forall|j: int|
                                    0 <= j < i ==> {
                                        let e = #[trigger] wl_entries[j];
                                        &&& workloads@[j].name@ == e.0@
                                        &&& workloads@[j].main_mask@ == workload_mask(e.0@)
                                        &&& workloads@[j].mask_view() == Seq::<Seq<char>>::empty()
                                        &&& workloads@[j].workload.deep_view() == e.1.deep_view()
                                    },
                            decreases w.entries@.len() - i,
                        {
                            let wl = Workload::new_from_proto(
                                w.entries[i].0.as_str(),
                                w.entries[i].1.duplicate(),
                            );
                            workloads.push(wl);
                            i = i + 1;
                        }
                    },
                    None => {},
                }
            },
            None => {
                proof {
                    assert(named_values_view(config_entries@) =~= cfg_target);
                }
            },
        }
        obj.configs = KeyedList { entries: config_entries };
        obj.workloads = workloads;
        match &proto.workload_states {
            Some(m) => {
                obj.workload_state_collection = WorkloadStateCollection::new_from_proto(m);
            },
            None => {},
        }
        obj.complete_state = proto;
        obj
    }
}


impl CompleteState {
    /// A complete state holding what a manifest describes: its API version,
    /// its workloads (each built from its mapping form) and its configs.
    pub fn new_from_manifest(manifest: &Manifest) -> (r: Self)
        requires
            manifest_loadable(manifest.manifest@),
        ensures
            holds_manifest(r, manifest.manifest@),
    {
        let ghost m = manifest.manifest@;
        let dict = &manifest.manifest;
        let mut obj = Self::new();
        let api = match dict.get("apiVersion") {
            Some(v) => match v.as_str() {
                Some(t) => t,
                None => vstd::pervasive::unreached(),
            },
            None => vstd::pervasive::unreached(),
        };
        obj.set_api_version(api.as_str());
        let ghost ws = mapping_entries(yaml_field(m, ystr("workloads"@)));
        proof {
            assert(workload_views(desired_workloads(obj.complete_state)) =~= workloads_by_name(
                obj.workloads@,
            ));
        }
        let ghost mut builders: Seq<crate::workload_builder::WorkloadBuilder> = Seq::empty();
        match dict.get("workloads") {
            Some(wv) => {
                let entries = match wv.as_mapping() {
                    Some(es) => es,
                    None => vstd::pervasive::unreached(),
                };
                proof {
                    lemma_pairs_view_len(entries@);
                    assert(ws == pairs_view(entries@));
                }
                let mut i: usize = 0;
                while i < entries.len()
                    invariant
                        m == manifest.manifest@,
                        manifest_loadable(m),
                        ws == mapping_entries(yaml_field(m, ystr("workloads"@))),
                        ws == pairs_view(entries@),
                        ws.len() == entries@.len(),
                        0 <= i <= entries@.len(),
                        obj.wf(),
                        obj.workloads@.len() == i,
                        builders.len() == i,
                        forall|j: int|
                            0 <= j < i ==> builder_from_dict(
                                #[trigger] builders[j],
                                yaml_text(ws[j].0),
                                mapping_entries(Some(ws[j].1)),
                            ) && built_workload(builders[j], obj.workloads@[j]),
                        workload_views(desired_workloads(obj.complete_state)) == workloads_by_name(
                            obj.workloads@,
                        ),
                        obj.complete_state.desired_state matches Some(s) && s.api_version@
                            == yaml_text(yaml_field(m, ystr("apiVersion"@)).unwrap()) && s.configs is None,
                        obj.configs.entries@.len() == 0,
                        obj.complete_state.workload_states is None,
                        obj.complete_state.agents is None,
                        obj.workload_state_collection.workload_states.entries@.len() == 0,
                    decreases entries@.len() - i,
                {
                    proof {
                        lemma_pairs_view_index(entries@, i as int);
                        assert(loadable_workload_entry(ws[i as int]));
                    }
                    let name = match entries[i].0.as_str() {
                        Some(t) => t,
                        None => vstd::pervasive::unreached(),
                    };
                    let d = match entries[i].1.as_mapping() {
                        Some(d) => d,
                        None => vstd::pervasive::unreached(),
                    };
                    proof {
                        assert(mapping_entries(Some(ws[i as int].1)) == pairs_view(d@));
                    }
                    let built = Workload::new_from_dict(name.as_str(), d);
                    let w = match built {
                        Ok(w) => w,
                        Err(_) => {
                            proof {
                                let b = choose|b: crate::workload_builder::WorkloadBuilder|
                                    builder_from_dict(b, name@, pairs_view(d@)) && build_outcome(
                                        b,
                                        built,
                                    );
                                assert(build_succeeds(b));
                            }
                            vstd::pervasive::unreached()
                        },
                    };
                    let ghost before = obj.workloads@;
                    let ghost old_map = desired_workloads(obj.complete_state);
                    obj.add_workload(w);
                    proof {
                        assert(obj.workloads@.drop_last() =~= before);
                        assert(workload_views(desired_workloads(obj.complete_state)) =~= workload_views(
                            old_map,
                        ).insert(w.name@, w.workload.deep_view()));
                        let b = choose|b: crate::workload_builder::WorkloadBuilder|
                            builder_from_dict(b, name@, pairs_view(d@)) && build_outcome(b, built);
                        assert(built_workload(b, obj.workloads@[i as int]));
                        assert(yaml_text(ws[i as int].0) == name@);
                        assert(mapping_entries(Some(ws[i as int].1)) == pairs_view(d@));
                        let prev_builders = builders;
                        builders = builders.push(b);
                        assert forall|j: int| 0 <= j < i + 1 implies builder_from_dict(
                            #[trigger] builders[j],
                            yaml_text(ws[j].0),
                            mapping_entries(Some(ws[j].1)),
                        ) && built_workload(builders[j], obj.workloads@[j]) by {
                            if j < i {
                                assert(builders[j] == prev_builders[j]);
                                assert(obj.workloads@[j] == before[j]);
                            }
                        }
                    }
                    i = i + 1;
                }
            },
            None => {},
        }
        proof {
            assert(obj.workloads@.len() == ws.len());
        }
        let ghost wl_snapshot = obj.workloads@;
        proof {
            assert forall|i: int| 0 <= i < ws.len() implies exists|
                b: crate::workload_builder::WorkloadBuilder,
            |
                builder_from_dict(b, yaml_text(ws[i].0), mapping_entries(Some(ws[i].1)))
                    && built_workload(b, #[trigger] wl_snapshot[i]) by {
                assert(builder_from_dict(
                    builders[i],
                    yaml_text(ws[i].0),
                    mapping_entries(Some(ws[i].1)),
                ));
            }
        }
        match dict.get("configs") {
            Some(cv) => {
                let entries = match cv.as_mapping() {
                    Some(es) => es,
                    None => vstd::pervasive::unreached(),
                };
                let ghost cs = pairs_view(entries@);
                proof {
                    lemma_pairs_view_len(entries@);
                }
                let mut configs: Vec<(String, YamlValue)> = Vec::new();
                let mut i: usize = 0;
                proof {
                    assert(cs.take(0) =~= Seq::<(YamlView, YamlView)>::empty());
                    assert(configs@.take(0) =~= configs@);
                }
                while i < entries.len()
                    invariant
                        m == manifest.manifest@,
                        manifest_loadable(m),
                        cs == pairs_view(entries@),
                        cs == mapping_entries(yaml_field(m, ystr("configs"@))),
                        cs.len() == entries@.len(),
                        0 <= i <= entries@.len(),
                        configs@.len() == i,
                        named_values_map(configs@) == named_views_map(cs.take(i as int)),
                        forall|j: int| 0 <= j < i ==> config_value_ok(#[trigger] configs@[j].1@),
                    decreases entries@.len() - i,
                {
                    proof {
                        lemma_pairs_view_index(entries@, i as int);
                        assert(cs[i as int].0 is Str && config_value_ok(cs[i as int].1));
                    }
                    let name = match entries[i].0.as_str() {
                        Some(t) => t.clone(),
                        None => vstd::pervasive::unreached(),
                    };
                    let v = entries[i].1.duplicate();
                    let ghost prev = configs@;
                    configs.push((name, v));
                    proof {
                        assert(configs@.drop_last() =~= prev);
                        assert(cs.take(i + 1).drop_last() =~= cs.take(i as int));
                    }
                    i = i + 1;
                }
                proof {
                    assert(cs.take(i as int) =~= cs);
                }
                obj.set_configs(configs);
            },
            None => {
                proof {
                    assert(yaml_values_map(obj.configs.map()) =~= manifest_configs_map(m));
                }
            },
        }
        proof {
            assert(obj.workloads@ == wl_snapshot);
            assert(ws == manifest_workloads(manifest.manifest@));
            assert forall|i: int| 0 <= i < obj.workloads@.len() implies built_from_dict(
                yaml_text(manifest_workloads(manifest.manifest@)[i].0),
                mapping_entries(Some(manifest_workloads(manifest.manifest@)[i].1)),
                #[trigger] obj.workloads@[i],
            ) by {
                let b = builders[i];
                assert(builder_from_dict(
                    b,
                    yaml_text(manifest_workloads(manifest.manifest@)[i].0),
                    mapping_entries(Some(manifest_workloads(manifest.manifest@)[i].1)),
                ));
                assert(built_workload(b, obj.workloads@[i]));
            }
            assert(obj.workloads@.len() == manifest_workloads(manifest.manifest@).len());
        }
        obj
    }
}


// ----------------------------------------------------------------------------
// The mapping form of the complete state
// ----------------------------------------------------------------------------

/// The entries of a mapping after `(k, v)` is inserted: the value of the
/// first entry with key `k` is replaced in place, or the entry is appended.
pub open spec fn mapping_insert_spec(es: Seq<(YamlView, YamlView)>, k: YamlView, v: YamlView) -> Seq<
    (YamlView, YamlView),
>
    decreases es.len(),
{
    if es.len() == 0 {
        seq![(k, v)]
    } else if es[0].0 == k {
        es.update(0, (k, v))
    } else {
        seq![es[0]] + mapping_insert_spec(es.drop_first(), k, v)
    }
}

/// The workloads as a mapping from names to their mapping forms; a later
/// workload with a name replaces the value of an earlier one in place.
pub open spec fn workloads_mapping(ws: Seq<Workload>) -> Seq<(YamlView, YamlView)>
    decreases ws.len(),
{
    if ws.len() == 0 {
        Seq::empty()
    } else {
        mapping_insert_spec(
            workloads_mapping(ws.drop_last()),
            ystr(ws.last().name@),
            workload_dict(ws.last().workload),
        )
    }
}

/// The mapping form of the agents: each agent with the mapping of what it
/// reports.
pub open spec fn agents_dict(a: Seq<(Seq<char>, Seq<(Seq<char>, Seq<char>)>)>) -> YamlView {
    YamlView::Mapping(
        Seq::new(
            a.len(),
            |i: int|
                (
                    ystr(a[i].0),
                    YamlView::Mapping(
                        Seq::new(a[i].1.len(), |j: int| (ystr(a[i].1[j].0), ystr(a[i].1[j].1))),
                    ),
                ),
        ),
    )
}

/// The mapping form of a complete state: its API version, its workloads,
/// its configs, its agents and its workload states.
pub open spec fn complete_state_dict(cs: CompleteState) -> YamlView {
    YamlView::Mapping(
        seq![
            (ystr("apiVersion"@), ystr(api_version_of(cs.complete_state))),
            (ystr("workloads"@), YamlView::Mapping(workloads_mapping(cs.workloads@))),
            (
                ystr("configs"@),
                YamlView::Mapping(
                    Seq::new(
                        cs.configs.entries@.len(),
                        |i: int| (ystr(cs.configs.entries@[i].0@), cs.configs.entries@[i].1@),
                    ),
                ),
            ),
            (ystr("agents"@), agents_dict(agents_view(cs.complete_state))),
            (ystr("workload_states"@), states_dict(cs.workload_state_collection.workload_states.entries@)),
        ],
    )
}

/// Every workload of `ws` can be written in mapping form: its restart
/// policy and dependency conditions are known codes.
pub open spec fn workloads_writable(ws: Seq<Workload>) -> bool {
    forall|i: int|
        0 <= i < ws.len() ==> restart_policy_valid(#[trigger] ws[i].workload) && dependency_codes_valid(
            ws[i].workload,
        )
}

proof fn lemma_mapping_insert_found(es: Seq<(YamlView, YamlView)>, k: YamlView, v: YamlView, i: int)
    requires
        0 <= i < es.len(),
        es[i].0 == k,
        forall|j: int| 0 <= j < i ==> es[j].0 != k,
    ensures
        mapping_insert_spec(es, k, v) == es.update(i, (k, v)),
    decreases i,
{
    if i > 0 {
        lemma_mapping_insert_found(es.drop_first(), k, v, i - 1);
        assert(seq![es[0]] + es.drop_first().update(i - 1, (k, v)) =~= es.update(i, (k, v)));
    }
}

proof fn lemma_mapping_insert_absent(es: Seq<(YamlView, YamlView)>, k: YamlView, v: YamlView)
    requires
        forall|j: int| 0 <= j < es.len() ==> es[j].0 != k,
    ensures
        mapping_insert_spec(es, k, v) == es.push((k, v)),
    decreases es.len(),
{
    if es.len() > 0 {
        lemma_mapping_insert_absent(es.drop_first(), k, v);
        assert(seq![es[0]] + es.drop_first().push((k, v)) =~= es.push((k, v)));
    }
}

/// Inserts the string key `key` with the value `v` into mapping entries.
fn mapping_insert(entries: &mut Vec<(YamlValue, YamlValue)>, key: &str, v: YamlValue)
    ensures
        pairs_view(final(entries)@) == mapping_insert_spec(pairs_view(old(entries)@), ystr(key@), v@),
{
    let ghost es = pairs_view(entries@);
    proof {
        lemma_pairs_view_len(entries@);
    }
    let mut i: usize = 0;
    while i < entries.len()
        invariant
            entries@ == old(entries)@,
            es == pairs_view(entries@),
            es.len() == entries@.len(),
            0 <= i <= entries@.len(),
            forall|j: int| 0 <= j < i ==> es[j].0 != ystr(key@),
        decreases entries@.len() - i,
    {
        proof {
            lemma_pairs_view_index(entries@, i as int);
        }
        if entries[i].0.is_str(key) {
            proof {
                lemma_mapping_insert_found(es, ystr(key@), v@, i as int);
            }
            let k = YamlValue::from_str_slice(key);
            let ghost before = entries@;
            entries.set(i, (k, v));
            proof {
                assert forall|j: int| 0 <= j < entries@.len() implies pairs_view(entries@)[j] == es.update(
                    i as int,
                    (ystr(key@), v@),
                )[j] by {
                    crate::yaml::lemma_pairs_view_index(entries@, j);
                    crate::yaml::lemma_pairs_view_index(before, j);
                }
                lemma_pairs_view_len(entries@);
                assert(pairs_view(entries@) =~= es.update(i as int, (ystr(key@), v@)));
            }
            return;
        }
        i = i + 1;
    }
    proof {
        lemma_mapping_insert_absent(es, ystr(key@), v@);
    }
    let k = YamlValue::from_str_slice(key);
    proof {
        lemma_pairs_view_push(entries@, k, v);
    }
    entries.push((k, v));
}

impl CompleteState {
    /// The complete state as a mapping: its API version, its workloads by
    /// name, its configs, its agents and its workload states.
    pub fn to_dict(&self) -> (r: YamlValue)
        requires
            self.wf(),
            workloads_writable(self.workloads@),
        ensures
            r@ == complete_state_dict(*self),
    {
        let mut dict: Vec<(YamlValue, YamlValue)> = Vec::new();
        let k = YamlValue::from_str_slice("apiVersion");
        let v = YamlValue::from_string(self.get_api_version());
        proof {
            lemma_pairs_view_push(dict@, k, v);
        }
        dict.push((k, v));
        let mut wl_entries: Vec<(YamlValue, YamlValue)> = Vec::new();
        let mut i: usize = 0;
        while i < self.workloads.len()
            invariant
                workloads_writable(self.workloads@),
                0 <= i <= self.workloads@.len(),
                pairs_view(wl_entries@) == workloads_mapping(self.workloads@.take(i as int)),
            decreases self.workloads@.len() - i,
        {
            proof {
                assert(self.workloads@.take(i + 1).drop_last() =~= self.workloads@.take(i as int));
                assert(restart_policy_valid(self.workloads@[i as int].workload));
            }
            let wd = self.workloads[i].to_dict();
            mapping_insert(&mut wl_entries, self.workloads[i].name.as_str(), wd);
            i = i + 1;
        }
        proof {
            assert(self.workloads@.take(i as int) =~= self.workloads@);
        }
        let k = YamlValue::from_str_slice("workloads");
        let v = YamlValue::from_entries(wl_entries);
        proof {
            lemma_pairs_view_push(dict@, k, v);
        }
        dict.push((k, v));
        let configs = self.get_configs();
        let mut cfg_entries: Vec<(YamlValue, YamlValue)> = Vec::new();
        let ghost target = Seq::new(
            self.configs.entries@.len(),
            |j: int| (ystr(self.configs.entries@[j].0@), self.configs.entries@[j].1@),
        );
        let mut j: usize = 0;
        proof {
            assert(named_values_view(configs@).len() == configs@.len());
        }
        while j < configs.len()
            invariant
                named_values_view(configs@) == named_values_view(self.configs.entries@),
                configs@.len() == self.configs.entries@.len(),
                target == Seq::new(
                    self.configs.entries@.len(),
                    |j: int| (ystr(self.configs.entries@[j].0@), self.configs.entries@[j].1@),
                ),
                0 <= j <= configs@.len(),
                pairs_view(cfg_entries@) == target.take(j as int),
            decreases configs@.len() - j,
        {
            let ck = YamlValue::from_string(configs[j].0.clone());
            let cv = configs[j].1.duplicate();
            proof {
                assert(named_values_view(configs@)[j as int] == named_values_view(
                    self.configs.entries@,
                )[j as int]);
                lemma_pairs_view_push(cfg_entries@, ck, cv);
            }
            cfg_entries.push((ck, cv));
            proof {
                assert(pairs_view(cfg_entries@) =~= target.take(j + 1));
            }
            j = j + 1;
        }
        proof {
            assert(target.take(j as int) =~= target);
        }
        let k = YamlValue::from_str_slice("configs");
        let v = YamlValue::from_entries(cfg_entries);
        proof {
            lemma_pairs_view_push(dict@, k, v);
        }
        dict.push((k, v));
        let agents = self.get_agents();
        let ghost av = agents_view(self.complete_state);
        let ghost agent_target = Seq::new(
            av.len(),
            |x: int|
                (
                    ystr(av[x].0),
                    YamlView::Mapping(
                        Seq::new(av[x].1.len(), |y: int| (ystr(av[x].1[y].0), ystr(av[x].1[y].1))),
                    ),
                ),
        );
        let mut agent_entries: Vec<(YamlValue, YamlValue)> = Vec::new();
        let mut x: usize = 0;
        while x < agents.len()
            invariant
                agents.deep_view() == av,
                agent_target == Seq::new(
                    av.len(),
                    |x: int|
                        (
                            ystr(av[x].0),
                            YamlView::Mapping(
                                Seq::new(
                                    av[x].1.len(),
                                    |y: int| (ystr(av[x].1[y].0), ystr(av[x].1[y].1)),
                                ),
                            ),
                        ),
                ),
                0 <= x <= agents@.len(),
                pairs_view(agent_entries@) == agent_target.take(x as int),
            decreases agents@.len() - x,
        {
            let attrs = &agents[x].1;
            let ghost attr_view = av[x as int].1;
            let mut attr_entries: Vec<(YamlValue, YamlValue)> = Vec::new();
            let mut y: usize = 0;
            proof {
                assert(attrs.deep_view() == attr_view);
            }
            while y < attrs.len()
                invariant
                    attrs.deep_view() == attr_view,
                    0 <= y <= attrs@.len(),
                    pairs_view(attr_entries@) == Seq::new(
                        attr_view.len(),
                        |y: int| (ystr(attr_view[y].0), ystr(attr_view[y].1)),
                    ).take(y as int),
                decreases attrs@.len() - y,
            {
                let ak = YamlValue::from_string(attrs[y].0.clone());
                let avv = YamlValue::from_string(attrs[y].1.clone());
                proof {
                    assert(attrs.deep_view()[y as int] == (attrs@[y as int].0@, attrs@[y as int].1@));
                    lemma_pairs_view_push(attr_entries@, ak, avv);
                }
                attr_entries.push((ak, avv));
                proof {
                    assert(pairs_view(attr_entries@) =~= Seq::new(
                        attr_view.len(),
                        |y: int| (ystr(attr_view[y].0), ystr(attr_view[y].1)),
                    ).take(y + 1));
                }
                y = y + 1;
            }
            proof {
                assert(Seq::new(
                    attr_view.len(),
                    |y: int| (ystr(attr_view[y].0), ystr(attr_view[y].1)),
                ).take(y as int) =~= Seq::new(
                    attr_view.len(),
                    |y: int| (ystr(attr_view[y].0), ystr(attr_view[y].1)),
                ));
            }
            let ak = YamlValue::from_string(agents[x].0.clone());
            let avv = YamlValue::from_entries(attr_entries);
            proof {
                assert(agents.deep_view()[x as int].0 == agents@[x as int].0@);
                lemma_pairs_view_push(agent_entries@, ak, avv);
            }
            agent_entries.push((ak, avv));
            proof {
                assert(pairs_view(agent_entries@) =~= agent_target.take(x + 1));
            }
            x = x + 1;
        }
        proof {
            assert(agent_target.take(x as int) =~= agent_target);
        }
        let k = YamlValue::from_str_slice("agents");
        let v = YamlValue::from_entries(agent_entries);
        proof {
            lemma_pairs_view_push(dict@, k, v);
        }
        dict.push((k, v));
        let k = YamlValue::from_str_slice("workload_states");
        let v = self.workload_state_collection.get_as_dict();
        proof {
            lemma_pairs_view_push(dict@, k, v);
        }
        dict.push((k, v));
        proof {
            assert(pairs_view(dict@) =~= seq![
                (ystr("apiVersion"@), ystr(api_version_of(self.complete_state))),
                (ystr("workloads"@), YamlView::Mapping(workloads_mapping(self.workloads@))),
                (ystr("configs"@), YamlView::Mapping(target)),
                (ystr("agents"@), agents_dict(agents_view(self.complete_state))),
                (ystr("workload_states"@), states_dict(self.workload_state_collection.workload_states.entries@)),
            ]);
        }
        YamlValue::from_entries(dict)
    }
}


impl DeepView for CompleteState {
    type V = (
        ank_base::CompleteStateView,
        Seq<(Seq<char>, Seq<char>, Seq<Seq<char>>, ank_base::WorkloadView)>,
        <KeyedList<KeyedList<KeyedList<crate::workload_state::WorkloadExecutionState>>> as DeepView>::V,
        Seq<(Seq<char>, YamlView)>,
    );

    open spec fn deep_view(&self) -> Self::V {
        (
            self.complete_state.deep_view(),
            self.workloads.deep_view(),
            self.workload_state_collection.workload_states.deep_view(),
            self.configs.deep_view(),
        )
    }
}

impl CompleteState {
    /// A copy of this complete state.
    pub fn duplicate(&self) -> (r: Self)
        ensures
            r.deep_view() == self.deep_view(),
    {
        let workloads = self.get_workloads();
        let r = CompleteState {
            complete_state: self.complete_state.deep_copy(),
            workloads,
            workload_state_collection: self.workload_state_collection.duplicate(),
            configs: self.configs.deep_copy(),
        };
        proof {
            assert(r.workloads.deep_view() =~= self.workloads.deep_view());
        }
        r
    }
}

} // verus!
