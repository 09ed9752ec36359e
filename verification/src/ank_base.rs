//! Plain-data messages exchanged with the Ankaios cluster.
//!
//! These mirror the protocol messages of the Ankaios API. Enumerations of the
//! protocol are kept as their numeric codes, exactly as the protocol transports
//! them; the SDK types translate the codes into names.

use vstd::prelude::*;
use crate::keyed::KeyedList;

verus! {

// ----------------------------------------------------------------------------
// Workload states
// ----------------------------------------------------------------------------

/// The execution state of a workload instance, as reported by an agent. Each
/// variant carries the numeric code of the sub-state.
#[derive(Clone, Copy, Debug, PartialEq, Eq)]
pub enum ExecutionStateEnum {
    AgentDisconnected(i32),
    Pending(i32),
    Running(i32),
    Stopping(i32),
    Succeeded(i32),
    Failed(i32),
    NotScheduled(i32),
    Removed(i32),
}

impl DeepView for ExecutionStateEnum {
    type V = ExecutionStateEnum;

    open spec fn deep_view(&self) -> ExecutionStateEnum {
        *self
    }
}

/// The execution state of a workload instance with its free-text information.
#[derive(Debug, PartialEq, Eq)]
pub struct ExecutionState {
    pub execution_state_enum: Option<ExecutionStateEnum>,
    pub additional_info: String,
}

impl ExecutionState {
    /// A copy of this execution state.
    pub fn duplicate(&self) -> (r: Self)
        ensures
            r == *self,
    {
        ExecutionState {
            execution_state_enum: self.execution_state_enum,
            additional_info: self.additional_info.clone(),
        }
    }
}

/// The workload states, keyed by agent name, then workload name, then
/// workload id.
#[derive(Debug, PartialEq, Eq)]
pub struct WorkloadStatesMap {
    pub agent_state_map: KeyedList<KeyedList<KeyedList<ExecutionState>>>,
}

/// The name of a workload instance in the protocol.
#[derive(Debug, PartialEq, Eq)]
pub struct WorkloadInstanceName {
    pub agent_name: String,
    pub workload_name: String,
    pub id: String,
}

// ----------------------------------------------------------------------------
// Files mounted into workloads
// ----------------------------------------------------------------------------

/// The content of a file in the protocol: text data or base64-encoded binary
/// data.
#[derive(Debug, PartialEq, Eq)]
pub enum FileContent {
    Data(String),
    BinaryData(String),
}

/// A file mounted into a workload, in the protocol.
#[derive(Debug, PartialEq, Eq)]
pub struct File {
    pub mount_point: String,
    pub file_content: Option<FileContent>,
}

// ----------------------------------------------------------------------------
// Workloads
// ----------------------------------------------------------------------------

/// A copy of a list of strings.
pub fn clone_strings(v: &Vec<String>) -> (r: Vec<String>)
    ensures
        r.deep_view() == v.deep_view(),
{
    let mut r: Vec<String> = Vec::new();
    let mut i: usize = 0;
    while i < v.len()
        invariant
            0 <= i <= v@.len(),
            r@.len() == i,
            forall|j: int| 0 <= j < i ==> (#[trigger] r@[j]).deep_view() == v@[j].deep_view(),
        decreases v@.len() - i,
    {
        let ghost prev = r@;
        r.push(v[i].clone());
        proof {
            assert(r@ == prev.push(v@[i as int]));
        }
        i = i + 1;
    }
    proof {
        assert(r.deep_view() =~= v.deep_view());
    }
    r
}

/// A tag of a workload: a key and a value.
#[derive(Debug, PartialEq, Eq)]
pub struct Tag {
    pub key: String,
    pub value: String,
}

impl DeepView for Tag {
    type V = (Seq<char>, Seq<char>);

    open spec fn deep_view(&self) -> (Seq<char>, Seq<char>) {
        (self.key@, self.value@)
    }
}

/// A rule on the state: an operation code and the filter masks it applies to.
#[derive(Debug, PartialEq, Eq)]
pub struct StateRule {
    pub operation: i32,
    pub filter_masks: Vec<String>,
}

impl DeepView for StateRule {
    type V = (i32, Seq<Seq<char>>);

    open spec fn deep_view(&self) -> (i32, Seq<Seq<char>>) {
        (self.operation, self.filter_masks.deep_view())
    }
}

/// An access rule of the control interface. The protocol knows rules on the
/// state; a rule of another kind is carried as `None`.
#[derive(Debug, PartialEq, Eq)]
pub struct AccessRightsRule {
    pub state_rule: Option<StateRule>,
}

impl DeepView for AccessRightsRule {
    type V = Option<(i32, Seq<Seq<char>>)>;

    open spec fn deep_view(&self) -> Option<(i32, Seq<Seq<char>>)> {
        self.state_rule.deep_view()
    }
}

/// The rules that allow and deny a workload access to the control interface.
#[derive(Debug, PartialEq, Eq)]
pub struct ControlInterfaceAccess {
    pub allow_rules: Vec<AccessRightsRule>,
    pub deny_rules: Vec<AccessRightsRule>,
}

impl DeepView for ControlInterfaceAccess {
    type V = (Seq<Option<(i32, Seq<Seq<char>>)>>, Seq<Option<(i32, Seq<Seq<char>>)>>);

    open spec fn deep_view(&self) -> Self::V {
        (self.allow_rules.deep_view(), self.deny_rules.deep_view())
    }
}

impl<V: DeepView> DeepView for KeyedList<V> {
    type V = Seq<(Seq<char>, V::V)>;

    open spec fn deep_view(&self) -> Seq<(Seq<char>, V::V)> {
        Seq::new(
            self.entries@.len(),
            |i: int| (self.entries@[i].0@, self.entries@[i].1.deep_view()),
        )
    }
}

/// The desired configuration of a workload, as the protocol carries it.
/// Restart policies and dependency conditions are kept as their codes.
#[derive(Debug, PartialEq, Eq)]
pub struct Workload {
    pub agent: Option<String>,
    pub runtime: Option<String>,
    pub runtime_config: Option<String>,
    pub restart_policy: Option<i32>,
    pub dependencies: Option<KeyedList<i32>>,
    pub tags: Option<Vec<Tag>>,
    pub control_interface_access: Option<ControlInterfaceAccess>,
    pub configs: Option<KeyedList<String>>,
}

/// The mathematical view of a [`Workload`].
pub struct WorkloadView {
    pub agent: Option<Seq<char>>,
    pub runtime: Option<Seq<char>>,
    pub runtime_config: Option<Seq<char>>,
    pub restart_policy: Option<i32>,
    pub dependencies: Option<Seq<(Seq<char>, i32)>>,
    pub tags: Option<Seq<(Seq<char>, Seq<char>)>>,
    pub control_interface_access: Option<
        (Seq<Option<(i32, Seq<Seq<char>>)>>, Seq<Option<(i32, Seq<Seq<char>>)>>),
    >,
    pub configs: Option<Seq<(Seq<char>, Seq<char>)>>,
}

impl DeepView for Workload {
    type V = WorkloadView;

    open spec fn deep_view(&self) -> WorkloadView {
        WorkloadView {
            agent: self.agent.deep_view(),
            runtime: self.runtime.deep_view(),
            runtime_config: self.runtime_config.deep_view(),
            restart_policy: self.restart_policy,
            dependencies: self.dependencies.deep_view(),
            tags: self.tags.deep_view(),
            control_interface_access: self.control_interface_access.deep_view(),
            configs: self.configs.deep_view(),
        }
    }
}

/// A workload with no field set.
pub open spec fn empty_workload_view() -> WorkloadView {
    WorkloadView {
        agent: None,
        runtime: None,
        runtime_config: None,
        restart_policy: None,
        dependencies: None,
        tags: None,
        control_interface_access: None,
        configs: None,
    }
}

pub fn clone_opt_string(s: &Option<String>) -> (r: Option<String>)
    ensures
        r == *s,
{
    match s {
        Some(s) => Some(s.clone()),
        None => None,
    }
}

pub fn clone_rules(v: &Vec<AccessRightsRule>) -> (r: Vec<AccessRightsRule>)
    ensures
        r.deep_view() == v.deep_view(),
{
    let mut r: Vec<AccessRightsRule> = Vec::new();
    let mut i: usize = 0;
    while i < v.len()
        invariant
            0 <= i <= v@.len(),
            r@.len() == i,
            forall|j: int| 0 <= j < i ==> (#[trigger] r@[j]).deep_view() == v@[j].deep_view(),
        decreases v@.len() - i,
    {
        let rule = match &v[i].state_rule {
            Some(sr) => AccessRightsRule {
                state_rule: Some(
                    StateRule {
                        operation: sr.operation,
                        filter_masks: clone_strings(&sr.filter_masks),
                    },
                ),
            },
            None => AccessRightsRule { state_rule: None },
        };
        let ghost prev = r@;
        r.push(rule);
        proof {
            assert(r@ == prev.push(rule));
            assert(rule.deep_view() == v@[i as int].deep_view());
        }
        i = i + 1;
    }
    proof {
        assert(r.deep_view() =~= v.deep_view());
    }
    r
}

pub fn clone_tags(v: &Vec<Tag>) -> (r: Vec<Tag>)
    ensures
        r.deep_view() == v.deep_view(),
{
    let mut r: Vec<Tag> = Vec::new();
    let mut i: usize = 0;
    while i < v.len()
        invariant
            0 <= i <= v@.len(),
            r@.len() == i,
            forall|j: int| 0 <= j < i ==> (#[trigger] r@[j]).deep_view() == v@[j].deep_view(),
        decreases v@.len() - i,
    {
        let tag = Tag { key: v[i].key.clone(), value: v[i].value.clone() };
        let ghost prev = r@;
        r.push(tag);
        proof {
            assert(r@ == prev.push(tag));
            assert(tag.deep_view() == v@[i as int].deep_view());
        }
        i = i + 1;
    }
    proof {
        assert(r.deep_view() =~= v.deep_view());
    }
    r
}

pub fn clone_codes(v: &KeyedList<i32>) -> (r: KeyedList<i32>)
    ensures
        r.deep_view() == v.deep_view(),
        r.entries@ == v.entries@,
{
    let mut entries: Vec<(String, i32)> = Vec::new();
    let mut i: usize = 0;
    while i < v.entries.len()
        invariant
            0 <= i <= v.entries@.len(),
            entries@ =~= v.entries@.take(i as int),
        decreases v.entries@.len() - i,
    {
        entries.push((v.entries[i].0.clone(), v.entries[i].1));
        i = i + 1;
    }
    proof {
        assert(v.entries@.take(v.entries@.len() as int) =~= v.entries@);
    }
    let r = KeyedList { entries };
    proof {
        assert(r.deep_view() =~= v.deep_view());
    }
    r
}

pub fn clone_string_map(v: &KeyedList<String>) -> (r: KeyedList<String>)
    ensures
        r.deep_view() == v.deep_view(),
        r.entries@ == v.entries@,
{
    let mut entries: Vec<(String, String)> = Vec::new();
    let mut i: usize = 0;
    while i < v.entries.len()
        invariant
            0 <= i <= v.entries@.len(),
            entries@ =~= v.entries@.take(i as int),
        decreases v.entries@.len() - i,
    {
        entries.push((v.entries[i].0.clone(), v.entries[i].1.clone()));
        i = i + 1;
    }
    proof {
        assert(v.entries@.take(v.entries@.len() as int) =~= v.entries@);
    }
    let r = KeyedList { entries };
    proof {
        assert(r.deep_view() =~= v.deep_view());
    }
    r
}

impl Workload {
    /// No dependency and no config alias occurs twice.
    pub open spec fn wf(&self) -> bool {
        &&& (self.dependencies matches Some(d) ==> d.wf())
        &&& (self.configs matches Some(c) ==> c.wf())
    }

    /// A workload with no field set.
    pub fn empty() -> (r: Self)
        ensures
            r.deep_view() == empty_workload_view(),
    {
        Workload {
            agent: None,
            runtime: None,
            runtime_config: None,
            restart_policy: None,
            dependencies: None,
            tags: None,
            control_interface_access: None,
            configs: None,
        }
    }

    /// A copy of this workload.
    pub fn duplicate(&self) -> (r: Self)
        ensures
            r.deep_view() == self.deep_view(),
    {
        Workload {
            agent: clone_opt_string(&self.agent),
            runtime: clone_opt_string(&self.runtime),
            runtime_config: clone_opt_string(&self.runtime_config),
            restart_policy: self.restart_policy,
            dependencies: match &self.dependencies {
                Some(d) => Some(clone_codes(d)),
                None => None,
            },
            tags: match &self.tags {
                Some(t) => Some(clone_tags(t)),
                None => None,
            },
            control_interface_access: match &self.control_interface_access {
                Some(c) => Some(
                    ControlInterfaceAccess {
                        allow_rules: clone_rules(&c.allow_rules),
                        deny_rules: clone_rules(&c.deny_rules),
                    },
                ),
                None => None,
            },
            configs: match &self.configs {
                Some(c) => Some(clone_string_map(c)),
                None => None,
            },
        }
    }
}


// ----------------------------------------------------------------------------
// Configs
// ----------------------------------------------------------------------------

/// A config value in the protocol: empty, a string, an array of config
/// values, or an object mapping names to config values.
#[derive(Debug, PartialEq, Eq)]
pub enum ConfigItem {
    Empty,
    String(String),
    Array(Vec<ConfigItem>),
    Object(KeyedList<ConfigItem>),
}

/// The mathematical view of a [`ConfigItem`].
pub enum ConfigView {
    Empty,
    Text(Seq<char>),
    Array(Seq<ConfigView>),
    Object(Seq<(Seq<char>, ConfigView)>),
}

pub open spec fn config_view(c: ConfigItem) -> ConfigView
    decreases c,
{
    match c {
        ConfigItem::Empty => ConfigView::Empty,
        ConfigItem::String(s) => ConfigView::Text(s@),
        ConfigItem::Array(items) => ConfigView::Array(config_seq_view(items@)),
        ConfigItem::Object(fields) => ConfigView::Object(config_fields_view(fields.entries@)),
    }
}

pub open spec fn config_seq_view(s: Seq<ConfigItem>) -> Seq<ConfigView>
    decreases s,
{
    if s.len() == 0 {
        Seq::empty()
    } else {
        config_seq_view(s.drop_last()).push(config_view(s.last()))
    }
}

pub open spec fn config_fields_view(s: Seq<(String, ConfigItem)>) -> Seq<(Seq<char>, ConfigView)>
    decreases s,
{
    if s.len() == 0 {
        Seq::empty()
    } else {
        config_fields_view(s.drop_last()).push((s.last().0@, config_view(s.last().1)))
    }
}

impl DeepView for ConfigItem {
    type V = ConfigView;

    open spec fn deep_view(&self) -> ConfigView {
        config_view(*self)
    }
}

pub proof fn lemma_config_seq_view_push(s: Seq<ConfigItem>, c: ConfigItem)
    ensures
        config_seq_view(s.push(c)) == config_seq_view(s).push(config_view(c)),
{
    assert(s.push(c).drop_last() =~= s);
}

pub proof fn lemma_config_fields_view_push(s: Seq<(String, ConfigItem)>, k: String, c: ConfigItem)
    ensures
        config_fields_view(s.push((k, c))) == config_fields_view(s).push((k@, config_view(c))),
{
    assert(s.push((k, c)).drop_last() =~= s);
}

pub proof fn lemma_config_seq_view_index(s: Seq<ConfigItem>, i: int)
    requires
        0 <= i < s.len(),
    ensures
        config_seq_view(s).len() == s.len(),
        config_seq_view(s)[i] == config_view(s[i]),
    decreases s.len(),
{
    lemma_config_seq_view_len(s);
    if i < s.len() - 1 {
        lemma_config_seq_view_index(s.drop_last(), i);
    }
}

pub proof fn lemma_config_seq_view_len(s: Seq<ConfigItem>)
    ensures
        config_seq_view(s).len() == s.len(),
    decreases s.len(),
{
    if s.len() > 0 {
        lemma_config_seq_view_len(s.drop_last());
    }
}

pub proof fn lemma_config_fields_view_len(s: Seq<(String, ConfigItem)>)
    ensures
        config_fields_view(s).len() == s.len(),
    decreases s.len(),
{
    if s.len() > 0 {
        lemma_config_fields_view_len(s.drop_last());
    }
}

pub proof fn lemma_config_fields_view_index(s: Seq<(String, ConfigItem)>, i: int)
    requires
        0 <= i < s.len(),
    ensures
        config_fields_view(s).len() == s.len(),
        config_fields_view(s)[i] == (s[i].0@, config_view(s[i].1)),
    decreases s.len(),
{
    lemma_config_fields_view_len(s);
    if i < s.len() - 1 {
        lemma_config_fields_view_index(s.drop_last(), i);
    }
}

// ----------------------------------------------------------------------------
// The complete state
// ----------------------------------------------------------------------------

/// The desired state: the API version, the workloads by name and the configs
/// by name.
#[derive(Debug, PartialEq, Eq)]
pub struct State {
    pub api_version: String,
    pub workloads: Option<KeyedList<Workload>>,
    pub configs: Option<KeyedList<ConfigItem>>,
}

/// What an agent reports of its resources.
#[derive(Clone, Copy, Debug, PartialEq, Eq)]
pub struct AgentAttributes {
    pub cpu_usage: Option<u32>,
    pub free_memory: Option<u64>,
}

/// The complete state of the cluster: the desired state, the workload states
/// and the agents by name.
#[derive(Debug, PartialEq, Eq)]
pub struct CompleteState {
    pub desired_state: Option<State>,
    pub workload_states: Option<WorkloadStatesMap>,
    pub agents: Option<KeyedList<AgentAttributes>>,
}

impl CompleteState {
    /// A complete state with nothing set.
    pub fn empty() -> (r: Self)
        ensures
            r.desired_state is None,
            r.workload_states is None,
            r.agents is None,
    {
        CompleteState { desired_state: None, workload_states: None, agents: None }
    }
}


// ----------------------------------------------------------------------------
// Copies
// ----------------------------------------------------------------------------

/// Values that can be copied with a copy that has the same deep view.
pub trait DeepCopy: Sized + DeepView {
    /// A copy with the same deep view.
    fn deep_copy(&self) -> (r: Self)
        ensures
            r.deep_view() == self.deep_view(),
    ;
}

impl DeepView for ExecutionState {
    type V = (Option<ExecutionStateEnum>, Seq<char>);

    open spec fn deep_view(&self) -> (Option<ExecutionStateEnum>, Seq<char>) {
        (self.execution_state_enum, self.additional_info@)
    }
}

impl DeepCopy for ExecutionState {
    fn deep_copy(&self) -> (r: Self) {
        self.duplicate()
    }
}

impl DeepView for AgentAttributes {
    type V = (Option<u32>, Option<u64>);

    open spec fn deep_view(&self) -> (Option<u32>, Option<u64>) {
        (self.cpu_usage, self.free_memory)
    }
}

impl DeepCopy for AgentAttributes {
    fn deep_copy(&self) -> (r: Self) {
        *self
    }
}

impl DeepCopy for Workload {
    fn deep_copy(&self) -> (r: Self) {
        self.duplicate()
    }
}

impl DeepCopy for ConfigItem {
    fn deep_copy(&self) -> (r: Self)
        decreases self,
    {
        match self {
            ConfigItem::Empty => ConfigItem::Empty,
            ConfigItem::String(s) => ConfigItem::String(s.clone()),
            ConfigItem::Array(items) => {
                let mut out: Vec<ConfigItem> = Vec::new();
                let mut i: usize = 0;
                proof {
                    lemma_config_seq_view_len(items@);
                }
                while i < items.len()
                    invariant
                        *self == ConfigItem::Array(*items),
                        0 <= i <= items@.len(),
                        config_seq_view(items@).len() == items@.len(),
                        config_seq_view(out@) == config_seq_view(items@).take(i as int),
                    decreases items@.len() - i,
                {
                    proof {
                        assert(decreases_to!(*self => self->Array_0));
                        assert(decreases_to!(*items => items@));
                        assert(decreases_to!(items@ => items@[i as int]));
                        lemma_config_seq_view_index(items@, i as int);
                    }
                    let c = items[i].deep_copy();
                    proof {
                        lemma_config_seq_view_push(out@, c);
                    }
                    out.push(c);
                    proof {
                        assert(config_seq_view(out@) =~= config_seq_view(items@).take(i + 1));
                    }
                    i = i + 1;
                }
                proof {
                    assert(config_seq_view(items@).take(i as int) =~= config_seq_view(items@));
                }
                ConfigItem::Array(out)
            },
            ConfigItem::Object(fields) => {
                let mut out: Vec<(String, ConfigItem)> = Vec::new();
                let mut i: usize = 0;
                proof {
                    lemma_config_fields_view_len(fields.entries@);
                }
                while i < fields.entries.len()
                    invariant
                        *self == ConfigItem::Object(*fields),
                        0 <= i <= fields.entries@.len(),
                        config_fields_view(fields.entries@).len() == fields.entries@.len(),
                        config_fields_view(out@) == config_fields_view(fields.entries@).take(i as int),
                    decreases fields.entries@.len() - i,
                {
                    proof {
                        assert(decreases_to!(*self => self->Object_0));
                        assert(decreases_to!(*fields => fields.entries));
                        assert(decreases_to!(fields.entries => fields.entries@));
                        assert(decreases_to!(fields.entries@ => fields.entries@[i as int]));
                        assert(decreases_to!(fields.entries@[i as int] => fields.entries@[i as int].1));
                        lemma_config_fields_view_index(fields.entries@, i as int);
                    }
                    let k = fields.entries[i].0.clone();
                    let c = fields.entries[i].1.deep_copy();
                    proof {
                        lemma_config_fields_view_push(out@, k, c);
                    }
                    out.push((k, c));
                    proof {
                        assert(config_fields_view(out@) =~= config_fields_view(fields.entries@).take(i + 1));
                    }
                    i = i + 1;
                }
                proof {
                    assert(config_fields_view(fields.entries@).take(i as int) =~= config_fields_view(
                        fields.entries@,
                    ));
                }
                ConfigItem::Object(KeyedList { entries: out })
            },
        }
    }
}

impl<V: DeepCopy> DeepCopy for KeyedList<V> {
    fn deep_copy(&self) -> (r: Self) {
        let mut out: Vec<(String, V)> = Vec::new();
        let mut i: usize = 0;
        while i < self.entries.len()
            invariant
                0 <= i <= self.entries@.len(),
                out@.len() == i,
                forall|j: int|
                    0 <= j < i ==> (#[trigger] out@[j]).0@ == self.entries@[j].0@ && out@[j].1.deep_view()
                        == self.entries@[j].1.deep_view(),
            decreases self.entries@.len() - i,
        {
            let k = self.entries[i].0.clone();
            let v = self.entries[i].1.deep_copy();
            out.push((k, v));
            i = i + 1;
        }
        let r = KeyedList { entries: out };
        proof {
            assert(r.deep_view() =~= self.deep_view());
        }
        r
    }
}

/// The mathematical view of a [`State`].
pub struct StateView {
    pub api_version: Seq<char>,
    pub workloads: Option<Seq<(Seq<char>, WorkloadView)>>,
    pub configs: Option<Seq<(Seq<char>, ConfigView)>>,
}

impl DeepView for State {
    type V = StateView;

    open spec fn deep_view(&self) -> StateView {
        StateView {
            api_version: self.api_version@,
            workloads: self.workloads.deep_view(),
            configs: self.configs.deep_view(),
        }
    }
}

impl DeepCopy for State {
    fn deep_copy(&self) -> (r: Self) {
        State {
            api_version: self.api_version.clone(),
            workloads: match &self.workloads {
                Some(w) => Some(w.deep_copy()),
                None => None,
            },
            configs: match &self.configs {
                Some(c) => Some(c.deep_copy()),
                None => None,
            },
        }
    }
}

impl DeepView for WorkloadStatesMap {
    type V = Seq<
        (Seq<char>, Seq<(Seq<char>, Seq<(Seq<char>, (Option<ExecutionStateEnum>, Seq<char>))>)>),
    >;

    open spec fn deep_view(&self) -> Self::V {
        self.agent_state_map.deep_view()
    }
}

impl DeepCopy for WorkloadStatesMap {
    fn deep_copy(&self) -> (r: Self) {
        WorkloadStatesMap { agent_state_map: self.agent_state_map.deep_copy() }
    }
}

/// The mathematical view of a [`CompleteState`].
pub struct CompleteStateView {
    pub desired_state: Option<StateView>,
    pub workload_states: Option<
        Seq<
            (
                Seq<char>,
                Seq<(Seq<char>, Seq<(Seq<char>, (Option<ExecutionStateEnum>, Seq<char>))>)>,
            ),
        >,
    >,
    pub agents: Option<Seq<(Seq<char>, (Option<u32>, Option<u64>))>>,
}

impl DeepView for CompleteState {
    type V = CompleteStateView;

    open spec fn deep_view(&self) -> CompleteStateView {
        CompleteStateView {
            desired_state: self.desired_state.deep_view(),
            workload_states: self.workload_states.deep_view(),
            agents: self.agents.deep_view(),
        }
    }
}

impl DeepCopy for CompleteState {
    fn deep_copy(&self) -> (r: Self) {
        CompleteState {
            desired_state: match &self.desired_state {
                Some(s) => Some(s.deep_copy()),
                None => None,
            },
            workload_states: match &self.workload_states {
                Some(w) => Some(w.deep_copy()),
                None => None,
            },
            agents: match &self.agents {
                Some(a) => Some(a.deep_copy()),
                None => None,
            },
        }
    }
}


// ----------------------------------------------------------------------------
// Requests and responses
// ----------------------------------------------------------------------------

/// A request for the complete state, filtered by field masks.
#[derive(Debug, PartialEq, Eq)]
pub struct CompleteStateRequest {
    pub field_mask: Vec<String>,
}

/// A request to update the state with a new state and update masks.
#[derive(Debug, PartialEq, Eq)]
pub struct UpdateStateRequest {
    pub new_state: Option<CompleteState>,
    pub update_mask: Vec<String>,
}

/// A request for the logs of workload instances.
#[derive(Debug, PartialEq, Eq)]
pub struct LogsRequest {
    pub workload_names: Vec<WorkloadInstanceName>,
    pub follow: Option<bool>,
    pub tail: Option<i32>,
    pub since: Option<String>,
    pub until: Option<String>,
}

/// The content of a request.
#[derive(Debug, PartialEq, Eq)]
pub enum RequestContent {
    CompleteStateRequest(CompleteStateRequest),
    UpdateStateRequest(UpdateStateRequest),
    LogsRequest(LogsRequest),
    LogsCancelRequest,
}

/// A request to the cluster with its id.
#[derive(Debug, PartialEq, Eq)]
pub struct Request {
    pub request_id: String,
    pub request_content: Option<RequestContent>,
}

/// The names of the workload instances that an update added and deleted,
/// each as `workload_name.workload_id.agent_name`.
#[derive(Debug, PartialEq, Eq)]
pub struct UpdateStateSuccess {
    pub added_workloads: Vec<String>,
    pub deleted_workloads: Vec<String>,
}

/// A log line of a workload instance.
#[derive(Debug, PartialEq, Eq)]
pub struct LogEntry {
    pub workload_name: Option<WorkloadInstanceName>,
    pub message: String,
}

/// An event of an events campaign: the complete state after the change, if
/// the event carries one, and the masks of the fields that the change added,
/// updated and removed.
#[derive(Debug, PartialEq, Eq)]
pub struct EventEntry {
    pub complete_state: Option<CompleteState>,
    pub added_fields: Vec<String>,
    pub updated_fields: Vec<String>,
    pub removed_fields: Vec<String>,
}

/// The content of a response.
#[derive(Debug, PartialEq, Eq)]
pub enum ResponseContent {
    Error(String),
    CompleteState(CompleteState),
    UpdateStateSuccess(UpdateStateSuccess),
    LogEntriesResponse(Vec<LogEntry>),
    LogsRequestAccepted(Vec<WorkloadInstanceName>),
    LogsStopResponse(Option<WorkloadInstanceName>),
    LogsCancelAccepted,
    EventResponse(EventEntry),
}

/// A response of the cluster to the request with the id `request_id`.
#[derive(Debug, PartialEq, Eq)]
pub struct Response {
    pub request_id: String,
    pub response_content: Option<ResponseContent>,
}

/// What the cluster sends: a response, or the reason for closing the
/// connection.
#[derive(Debug, PartialEq, Eq)]
pub enum FromAnkaiosEnum {
    Response(Response),
    ConnectionClosed(String),
}

/// A message from the cluster.
#[derive(Debug, PartialEq, Eq)]
pub struct FromAnkaios {
    pub from_ankaios_enum: Option<FromAnkaiosEnum>,
}


impl DeepView for WorkloadInstanceName {
    type V = (Seq<char>, Seq<char>, Seq<char>);

    open spec fn deep_view(&self) -> (Seq<char>, Seq<char>, Seq<char>) {
        (self.agent_name@, self.workload_name@, self.id@)
    }
}

impl DeepCopy for WorkloadInstanceName {
    fn deep_copy(&self) -> (r: Self) {
        WorkloadInstanceName {
            agent_name: self.agent_name.clone(),
            workload_name: self.workload_name.clone(),
            id: self.id.clone(),
        }
    }
}

/// The mathematical view of a [`RequestContent`].
pub enum RequestContentView {
    CompleteStateRequest(Seq<Seq<char>>),
    UpdateStateRequest(Option<CompleteStateView>, Seq<Seq<char>>),
    LogsRequest(
        Seq<(Seq<char>, Seq<char>, Seq<char>)>,
        Option<bool>,
        Option<i32>,
        Option<Seq<char>>,
        Option<Seq<char>>,
    ),
    LogsCancelRequest,
}

impl DeepView for RequestContent {
    type V = RequestContentView;

    open spec fn deep_view(&self) -> RequestContentView {
        match self {
            RequestContent::CompleteStateRequest(r) => RequestContentView::CompleteStateRequest(
                r.field_mask.deep_view(),
            ),
            RequestContent::UpdateStateRequest(r) => RequestContentView::UpdateStateRequest(
                r.new_state.deep_view(),
                r.update_mask.deep_view(),
            ),
            RequestContent::LogsRequest(r) => RequestContentView::LogsRequest(
                r.workload_names.deep_view(),
                r.follow,
                r.tail,
                r.since.deep_view(),
                r.until.deep_view(),
            ),
            RequestContent::LogsCancelRequest => RequestContentView::LogsCancelRequest,
        }
    }
}

impl DeepView for Request {
    type V = (Seq<char>, Option<RequestContentView>);

    open spec fn deep_view(&self) -> (Seq<char>, Option<RequestContentView>) {
        (self.request_id@, self.request_content.deep_view())
    }
}

/// A copy of a list of instance names.
pub fn clone_instance_names(v: &Vec<WorkloadInstanceName>) -> (r: Vec<WorkloadInstanceName>)
    ensures
        r.deep_view() == v.deep_view(),
{
    let mut r: Vec<WorkloadInstanceName> = Vec::new();
    let mut i: usize = 0;
    while i < v.len()
        invariant
            0 <= i <= v@.len(),
            r@.len() == i,
            forall|j: int| 0 <= j < i ==> (#[trigger] r@[j]).deep_view() == v@[j].deep_view(),
        decreases v@.len() - i,
    {
        r.push(v[i].deep_copy());
        i = i + 1;
    }
    proof {
        assert(r.deep_view() =~= v.deep_view());
    }
    r
}

impl DeepCopy for Request {
    fn deep_copy(&self) -> (r: Self) {
        let content = match &self.request_content {
            Some(RequestContent::CompleteStateRequest(c)) => Some(
                RequestContent::CompleteStateRequest(
                    CompleteStateRequest { field_mask: clone_strings(&c.field_mask) },
                ),
            ),
            Some(RequestContent::UpdateStateRequest(u)) => Some(
                RequestContent::UpdateStateRequest(
                    UpdateStateRequest {
                        new_state: match &u.new_state {
                            Some(cs) => Some(cs.deep_copy()),
                            None => None,
                        },
                        update_mask: clone_strings(&u.update_mask),
                    },
                ),
            ),
            Some(RequestContent::LogsRequest(l)) => Some(
                RequestContent::LogsRequest(
                    LogsRequest {
                        workload_names: clone_instance_names(&l.workload_names),
                        follow: l.follow,
                        tail: l.tail,
                        since: clone_opt_string(&l.since),
                        until: clone_opt_string(&l.until),
                    },
                ),
            ),
            Some(RequestContent::LogsCancelRequest) => Some(RequestContent::LogsCancelRequest),
            None => None,
        };
        Request { request_id: self.request_id.clone(), request_content: content }
    }
}

} // verus!
