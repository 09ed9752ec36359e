//! The texts of the protocol messages: each value is written as its derived
//! `Debug` layout writes it (`Name { field: value }`, `Some(..)`, `[..]`,
//! strings quoted), except that a keyed list is written as a map,
//! `{"key": value, ..}`, in its order.

use vstd::prelude::*;
use crate::ank_base;
use crate::command_interface::{str_debug, str_debug_text};
use crate::keyed::KeyedList;
use crate::workload_state::WorkloadInstanceName;
use crate::strings::{decimal, signed_decimal, i32_to_text, u64_to_text};

verus! {

/// The texts `items` separated by `", "`.
pub open spec fn joined(items: Seq<Seq<char>>) -> Seq<char>
    decreases items.len(),
{
    if items.len() == 0 {
        Seq::empty()
    } else if items.len() == 1 {
        items[0]
    } else {
        joined(items.drop_last()) + ", "@ + items.last()
    }
}

/// The texts `items` as a list: `[a, b, ..]`.
pub open spec fn list_text(items: Seq<Seq<char>>) -> Seq<char> {
    "["@ + joined(items) + "]"@
}

/// The texts `items` as a map: `{a, b, ..}`, each item already `key: value`.
pub open spec fn map_text(items: Seq<Seq<char>>) -> Seq<char> {
    "{"@ + joined(items) + "}"@
}

proof fn lemma_joined_step(items: Seq<Seq<char>>, i: int)
    requires
        0 <= i < items.len(),
    ensures
        joined(items.take(i + 1)) == (if i == 0 {
            items[0]
        } else {
            joined(items.take(i)) + ", "@ + items[i]
        }),
{
    assert(items.take(i + 1).drop_last() =~= items.take(i));
    assert(items.take(i + 1).len() == i + 1);
    assert(items.take(i + 1).last() == items[i]);
    if i == 0 {
        assert(items.take(1)[0] == items[0]);
    }
}

/// `open`, then the texts of `items` separated by `", "`, then `close`.
fn join_texts(items: &Vec<String>, open: &str, close: &str) -> (r: String)
    ensures
        r@ == open@ + joined(items.deep_view()) + close@,
{
    let ghost v = items.deep_view();
    let mut s = open.to_owned();
    let mut i: usize = 0;
    proof {
        assert(v.take(0) =~= Seq::<Seq<char>>::empty());
        assert(s@ =~= open@ + joined(v.take(0)));
    }
    while i < items.len()
        invariant
            v == items.deep_view(),
            0 <= i <= items@.len(),
            v.len() == items@.len(),
            s@ == open@ + joined(v.take(i as int)),
        decreases items@.len() - i,
    {
        proof {
            lemma_joined_step(v, i as int);
            assert(v[i as int] == items@[i as int]@);
        }
        let ghost before = s@;
        if i > 0 {
            s.append(", ");
        }
        s.append(items[i].as_str());
        proof {
            if i == 0 {
                assert(s@ =~= open@ + joined(v.take(i + 1)));
            } else {
                assert(s@ =~= before + ", "@ + v[i as int]);
                assert(s@ =~= open@ + joined(v.take(i + 1)));
            }
        }
        i = i + 1;
    }
    proof {
        assert(v.take(i as int) =~= v);
    }
    s.append(close);
    s
}

/// Values with a text: `text_of` says what the text of a value with the
/// given view is, and `debug_text` writes it.
pub trait DebugText: Sized + DeepView {
    /// The text of a value whose deep view is `v`.
    spec fn text_of(v: Self::V) -> Seq<char>;

    /// The text of this value.
    fn debug_text(&self) -> (r: String)
        ensures
            r@ == Self::text_of(self.deep_view()),
    ;
}

impl DebugText for String {
    open spec fn text_of(v: Seq<char>) -> Seq<char> {
        str_debug_text(v)
    }

    fn debug_text(&self) -> (r: String) {
        str_debug(self.as_str())
    }
}

impl DebugText for i32 {
    open spec fn text_of(v: i32) -> Seq<char> {
        signed_decimal(v as int)
    }

    fn debug_text(&self) -> (r: String) {
        i32_to_text(*self)
    }
}

impl DebugText for u32 {
    open spec fn text_of(v: u32) -> Seq<char> {
        decimal(v as nat)
    }

    fn debug_text(&self) -> (r: String) {
        u64_to_text(*self as u64)
    }
}

impl DebugText for u64 {
    open spec fn text_of(v: u64) -> Seq<char> {
        decimal(v as nat)
    }

    fn debug_text(&self) -> (r: String) {
        u64_to_text(*self)
    }
}

impl DebugText for bool {
    open spec fn text_of(v: bool) -> Seq<char> {
        if v {
            "true"@
        } else {
            "false"@
        }
    }

    fn debug_text(&self) -> (r: String) {
        if *self {
            "true".to_owned()
        } else {
            "false".to_owned()
        }
    }
}

/// The texts of the items whose views are `s`.
pub open spec fn texts_of<T: DebugText>(s: Seq<T::V>) -> Seq<Seq<char>> {
    s.map_values(|v: T::V| T::text_of(v))
}

impl<T: DebugText> DebugText for Vec<T> {
    open spec fn text_of(v: Seq<T::V>) -> Seq<char> {
        list_text(texts_of::<T>(v))
    }

    fn debug_text(&self) -> (r: String) {
        let mut texts: Vec<String> = Vec::new();
        let mut i: usize = 0;
        while i < self.len()
            invariant
                0 <= i <= self@.len(),
                texts@.len() == i,
                forall|j: int|
                    0 <= j < i ==> (#[trigger] texts@[j])@ == T::text_of(self@[j].deep_view()),
            decreases self@.len() - i,
        {
            let t = self[i].debug_text();
            texts.push(t);
            i = i + 1;
        }
        proof {
            assert(texts.deep_view() =~= texts_of::<T>(self.deep_view()));
        }
        join_texts(&texts, "[", "]")
    }
}

impl<T: DebugText> DebugText for Option<T> {
    open spec fn text_of(v: Option<T::V>) -> Seq<char> {
        match v {
            Some(x) => "Some("@ + T::text_of(x) + ")"@,
            None => "None"@,
        }
    }

    fn debug_text(&self) -> (r: String) {
        match self {
            Some(x) => {
                let mut s = "Some(".to_owned();
                let t = x.debug_text();
                s.append(t.as_str());
                s.append(")");
                s
            },
            None => "None".to_owned(),
        }
    }
}

/// The texts `"key": value` of the entries whose views are `s`.
pub open spec fn entry_texts<V: DebugText>(s: Seq<(Seq<char>, V::V)>) -> Seq<Seq<char>> {
    s.map_values(|e: (Seq<char>, V::V)| str_debug_text(e.0) + ": "@ + V::text_of(e.1))
}

impl<V: DebugText> DebugText for KeyedList<V> {
    open spec fn text_of(v: Seq<(Seq<char>, V::V)>) -> Seq<char> {
        map_text(entry_texts::<V>(v))
    }

    fn debug_text(&self) -> (r: String) {
        let mut texts: Vec<String> = Vec::new();
        let mut i: usize = 0;
        while i < self.entries.len()
            invariant
                0 <= i <= self.entries@.len(),
                texts@.len() == i,
                forall|j: int|
                    0 <= j < i ==> (#[trigger] texts@[j])@ == str_debug_text(self.entries@[j].0@)
                        + ": "@ + V::text_of(self.entries@[j].1.deep_view()),
            decreases self.entries@.len() - i,
        {
            let mut t = str_debug(self.entries[i].0.as_str());
            t.append(": ");
            let v = self.entries[i].1.debug_text();
            t.append(v.as_str());
            texts.push(t);
            i = i + 1;
        }
        proof {
            assert(texts.deep_view() =~= entry_texts::<V>(self.deep_view()));
        }
        join_texts(&texts, "{", "}")
    }
}

impl DebugText for ank_base::Tag {
    open spec fn text_of(v: (Seq<char>, Seq<char>)) -> Seq<char> {
        "Tag { key: "@ + str_debug_text(v.0) + ", value: "@ + str_debug_text(v.1) + " }"@
    }

    fn debug_text(&self) -> (r: String) {
        let mut s = "Tag { key: ".to_owned();
        s.append(self.key.debug_text().as_str());
        s.append(", value: ");
        s.append(self.value.debug_text().as_str());
        s.append(" }");
        s
    }
}

impl DebugText for ank_base::StateRule {
    open spec fn text_of(v: (i32, Seq<Seq<char>>)) -> Seq<char> {
        "StateRule { operation: "@ + signed_decimal(v.0 as int) + ", filter_masks: "@ + <Vec<
            String,
        > as DebugText>::text_of(v.1) + " }"@
    }

    fn debug_text(&self) -> (r: String) {
        let mut s = "StateRule { operation: ".to_owned();
        s.append(self.operation.debug_text().as_str());
        s.append(", filter_masks: ");
        s.append(self.filter_masks.debug_text().as_str());
        s.append(" }");
        s
    }
}

impl DebugText for ank_base::AccessRightsRule {
    open spec fn text_of(v: Option<(i32, Seq<Seq<char>>)>) -> Seq<char> {
        "AccessRightsRule { state_rule: "@ + <Option<ank_base::StateRule> as DebugText>::text_of(v)
            + " }"@
    }

    fn debug_text(&self) -> (r: String) {
        let mut s = "AccessRightsRule { state_rule: ".to_owned();
        s.append(self.state_rule.debug_text().as_str());
        s.append(" }");
        s
    }
}

impl DebugText for ank_base::ControlInterfaceAccess {
    open spec fn text_of(
        v: (Seq<Option<(i32, Seq<Seq<char>>)>>, Seq<Option<(i32, Seq<Seq<char>>)>>),
    ) -> Seq<char> {
        "ControlInterfaceAccess { allow_rules: "@ + <Vec<ank_base::AccessRightsRule> as DebugText>::text_of(
            v.0,
        ) + ", deny_rules: "@ + <Vec<ank_base::AccessRightsRule> as DebugText>::text_of(v.1) + " }"@
    }

    fn debug_text(&self) -> (r: String) {
        let mut s = "ControlInterfaceAccess { allow_rules: ".to_owned();
        s.append(self.allow_rules.debug_text().as_str());
        s.append(", deny_rules: ");
        s.append(self.deny_rules.debug_text().as_str());
        s.append(" }");
        s
    }
}

/// The text of a workload whose view is `w`.
pub open spec fn workload_text(w: ank_base::WorkloadView) -> Seq<char> {
    "Workload { agent: "@ + <Option<String> as DebugText>::text_of(w.agent) + ", runtime: "@ + <Option<
        String,
    > as DebugText>::text_of(w.runtime) + ", runtime_config: "@ + <Option<String> as DebugText>::text_of(
        w.runtime_config,
    ) + ", restart_policy: "@ + <Option<i32> as DebugText>::text_of(w.restart_policy)
        + ", dependencies: "@ + <Option<KeyedList<i32>> as DebugText>::text_of(w.dependencies)
        + ", tags: "@ + <Option<Vec<ank_base::Tag>> as DebugText>::text_of(w.tags)
        + ", control_interface_access: "@ + <Option<ank_base::ControlInterfaceAccess> as DebugText>::text_of(
        w.control_interface_access,
    ) + ", configs: "@ + <Option<KeyedList<String>> as DebugText>::text_of(w.configs) + " }"@
}

impl DebugText for ank_base::Workload {
    open spec fn text_of(v: ank_base::WorkloadView) -> Seq<char> {
        workload_text(v)
    }

    fn debug_text(&self) -> (r: String) {
        let mut s = "Workload { agent: ".to_owned();
        s.append(self.agent.debug_text().as_str());
        s.append(", runtime: ");
        s.append(self.runtime.debug_text().as_str());
        s.append(", runtime_config: ");
        s.append(self.runtime_config.debug_text().as_str());
        s.append(", restart_policy: ");
        s.append(self.restart_policy.debug_text().as_str());
        s.append(", dependencies: ");
        s.append(self.dependencies.debug_text().as_str());
        s.append(", tags: ");
        s.append(self.tags.debug_text().as_str());
        s.append(", control_interface_access: ");
        s.append(self.control_interface_access.debug_text().as_str());
        s.append(", configs: ");
        s.append(self.configs.debug_text().as_str());
        s.append(" }");
        s
    }
}

/// The text of a config value whose view is `c`.
pub open spec fn config_text(c: ank_base::ConfigView) -> Seq<char>
    decreases c,
{
    match c {
        ank_base::ConfigView::Empty => "Empty"@,
        ank_base::ConfigView::Text(s) => "String("@ + str_debug_text(s) + ")"@,
        ank_base::ConfigView::Array(items) => "Array("@ + list_text(config_texts(items)) + ")"@,
        ank_base::ConfigView::Object(fields) => "Object("@ + map_text(config_field_texts(fields)) + ")"@,
    }
}

/// The texts of the config values whose views are `s`.
pub open spec fn config_texts(s: Seq<ank_base::ConfigView>) -> Seq<Seq<char>>
    decreases s,
{
    if s.len() == 0 {
        Seq::empty()
    } else {
        config_texts(s.drop_last()).push(config_text(s.last()))
    }
}

/// The texts `"name": value` of the config fields whose views are `s`.
pub open spec fn config_field_texts(s: Seq<(Seq<char>, ank_base::ConfigView)>) -> Seq<Seq<char>>
    decreases s,
{
    if s.len() == 0 {
        Seq::empty()
    } else {
        config_field_texts(s.drop_last()).push(
            str_debug_text(s.last().0) + ": "@ + config_text(s.last().1),
        )
    }
}

proof fn lemma_config_texts_take(s: Seq<ank_base::ConfigView>, i: int)
    requires
        0 <= i < s.len(),
    ensures
        config_texts(s.take(i + 1)) == config_texts(s.take(i)).push(config_text(s[i])),
{
    assert(s.take(i + 1).drop_last() =~= s.take(i));
}

proof fn lemma_config_field_texts_take(s: Seq<(Seq<char>, ank_base::ConfigView)>, i: int)
    requires
        0 <= i < s.len(),
    ensures
        config_field_texts(s.take(i + 1)) == config_field_texts(s.take(i)).push(
            str_debug_text(s[i].0) + ": "@ + config_text(s[i].1),
        ),
{
    assert(s.take(i + 1).drop_last() =~= s.take(i));
}

impl DebugText for ank_base::ConfigItem {
    open spec fn text_of(v: ank_base::ConfigView) -> Seq<char> {
        config_text(v)
    }

    fn debug_text(&self) -> (r: String)
        decreases self,
    {
        match self {
            ank_base::ConfigItem::Empty => "Empty".to_owned(),
            ank_base::ConfigItem::String(s) => {
                let mut r = "String(".to_owned();
                r.append(s.debug_text().as_str());
                r.append(")");
                r
            },
            ank_base::ConfigItem::Array(items) => {
                let ghost sv = ank_base::config_seq_view(items@);
                let mut texts: Vec<String> = Vec::new();
                let mut i: usize = 0;
                proof {
                    ank_base::lemma_config_seq_view_len(items@);
                    assert(sv.take(0) =~= Seq::<ank_base::ConfigView>::empty());
                    assert(texts.deep_view() =~= config_texts(sv.take(0)));
                }
                while i < items.len()
                    invariant
                        *self == ank_base::ConfigItem::Array(*items),
                        sv == ank_base::config_seq_view(items@),
                        0 <= i <= items@.len(),
                        sv.len() == items@.len(),
                        texts.deep_view() == config_texts(sv.take(i as int)),
                    decreases items@.len() - i,
                {
                    proof {
                        assert(decreases_to!(*self => self->Array_0));
                        assert(decreases_to!(*items => items@));
                        assert(decreases_to!(items@ => items@[i as int]));
                        ank_base::lemma_config_seq_view_index(items@, i as int);
                        lemma_config_texts_take(sv, i as int);
                    }
                    let t = items[i].debug_text();
                    let ghost before = texts.deep_view();
                    texts.push(t);
                    proof {
                        assert(texts.deep_view() =~= before.push(t@));
                    }
                    i = i + 1;
                }
                proof {
                    assert(sv.take(i as int) =~= sv);
                }
                let mut r = "Array(".to_owned();
                r.append(join_texts(&texts, "[", "]").as_str());
                r.append(")");
                r
            },
            ank_base::ConfigItem::Object(fields) => {
                let ghost fv = ank_base::config_fields_view(fields.entries@);
                let mut texts: Vec<String> = Vec::new();
                let mut i: usize = 0;
                proof {
                    ank_base::lemma_config_fields_view_len(fields.entries@);
                    assert(fv.take(0) =~= Seq::<(Seq<char>, ank_base::ConfigView)>::empty());
                    assert(texts.deep_view() =~= config_field_texts(fv.take(0)));
                }
                while i < fields.entries.len()
                    invariant
                        *self == ank_base::ConfigItem::Object(*fields),
                        fv == ank_base::config_fields_view(fields.entries@),
                        0 <= i <= fields.entries@.len(),
                        fv.len() == fields.entries@.len(),
                        texts.deep_view() == config_field_texts(fv.take(i as int)),
                    decreases fields.entries@.len() - i,
                {
                    proof {
                        assert(decreases_to!(*self => self->Object_0));
                        assert(decreases_to!(*fields => fields.entries));
                        assert(decreases_to!(fields.entries => fields.entries@));
                        assert(decreases_to!(fields.entries@ => fields.entries@[i as int]));
                        assert(decreases_to!(fields.entries@[i as int] => fields.entries@[i as int].1));
                        ank_base::lemma_config_fields_view_index(fields.entries@, i as int);
                        lemma_config_field_texts_take(fv, i as int);
                    }
                    let mut t = str_debug(fields.entries[i].0.as_str());
                    t.append(": ");
                    let v = fields.entries[i].1.debug_text();
                    t.append(v.as_str());
                    let ghost before = texts.deep_view();
                    texts.push(t);
                    proof {
                        assert(texts.deep_view() =~= before.push(t@));
                    }
                    i = i + 1;
                }
                proof {
                    assert(fv.take(i as int) =~= fv);
                }
                let mut r = "Object(".to_owned();
                r.append(join_texts(&texts, "{", "}").as_str());
                r.append(")");
                r
            },
        }
    }
}

impl DebugText for ank_base::ExecutionStateEnum {
    open spec fn text_of(v: ank_base::ExecutionStateEnum) -> Seq<char> {
        match v {
            ank_base::ExecutionStateEnum::AgentDisconnected(n) => "AgentDisconnected("@ + signed_decimal(n as int) + ")"@,
            ank_base::ExecutionStateEnum::Pending(n) => "Pending("@ + signed_decimal(n as int) + ")"@,
            ank_base::ExecutionStateEnum::Running(n) => "Running("@ + signed_decimal(n as int) + ")"@,
            ank_base::ExecutionStateEnum::Stopping(n) => "Stopping("@ + signed_decimal(n as int) + ")"@,
            ank_base::ExecutionStateEnum::Succeeded(n) => "Succeeded("@ + signed_decimal(n as int) + ")"@,
            ank_base::ExecutionStateEnum::Failed(n) => "Failed("@ + signed_decimal(n as int) + ")"@,
            ank_base::ExecutionStateEnum::NotScheduled(n) => "NotScheduled("@ + signed_decimal(n as int) + ")"@,
            ank_base::ExecutionStateEnum::Removed(n) => "Removed("@ + signed_decimal(n as int) + ")"@,
        }
    }

    fn debug_text(&self) -> (r: String) {
        let (name, n): (&str, i32) = match self {
            ank_base::ExecutionStateEnum::AgentDisconnected(n) => ("AgentDisconnected(", *n),
            ank_base::ExecutionStateEnum::Pending(n) => ("Pending(", *n),
            ank_base::ExecutionStateEnum::Running(n) => ("Running(", *n),
            ank_base::ExecutionStateEnum::Stopping(n) => ("Stopping(", *n),
            ank_base::ExecutionStateEnum::Succeeded(n) => ("Succeeded(", *n),
            ank_base::ExecutionStateEnum::Failed(n) => ("Failed(", *n),
            ank_base::ExecutionStateEnum::NotScheduled(n) => ("NotScheduled(", *n),
            ank_base::ExecutionStateEnum::Removed(n) => ("Removed(", *n),
        };
        let mut s = name.to_owned();
        s.append(i32_to_text(n).as_str());
        s.append(")");
        s
    }
}

impl DebugText for ank_base::ExecutionState {
    open spec fn text_of(v: (Option<ank_base::ExecutionStateEnum>, Seq<char>)) -> Seq<char> {
        "ExecutionState { execution_state_enum: "@ + <Option<ank_base::ExecutionStateEnum> as DebugText>::text_of(
            v.0,
        ) + ", additional_info: "@ + str_debug_text(v.1) + " }"@
    }

    fn debug_text(&self) -> (r: String) {
        let mut s = "ExecutionState { execution_state_enum: ".to_owned();
        s.append(self.execution_state_enum.debug_text().as_str());
        s.append(", additional_info: ");
        s.append(self.additional_info.debug_text().as_str());
        s.append(" }");
        s
    }
}

impl DebugText for ank_base::AgentAttributes {
    open spec fn text_of(v: (Option<u32>, Option<u64>)) -> Seq<char> {
        "AgentAttributes { cpu_usage: "@ + <Option<u32> as DebugText>::text_of(v.0) + ", free_memory: "@
            + <Option<u64> as DebugText>::text_of(v.1) + " }"@
    }

    fn debug_text(&self) -> (r: String) {
        let mut s = "AgentAttributes { cpu_usage: ".to_owned();
        s.append(self.cpu_usage.debug_text().as_str());
        s.append(", free_memory: ");
        s.append(self.free_memory.debug_text().as_str());
        s.append(" }");
        s
    }
}

impl DebugText for ank_base::State {
    open spec fn text_of(v: ank_base::StateView) -> Seq<char> {
        "State { api_version: "@ + str_debug_text(v.api_version) + ", workloads: "@ + <Option<
            KeyedList<ank_base::Workload>,
        > as DebugText>::text_of(v.workloads) + ", configs: "@ + <Option<
            KeyedList<ank_base::ConfigItem>,
        > as DebugText>::text_of(v.configs) + " }"@
    }

    fn debug_text(&self) -> (r: String) {
        let mut s = "State { api_version: ".to_owned();
        s.append(self.api_version.debug_text().as_str());
        s.append(", workloads: ");
        s.append(self.workloads.debug_text().as_str());
        s.append(", configs: ");
        s.append(self.configs.debug_text().as_str());
        s.append(" }");
        s
    }
}

impl DebugText for ank_base::WorkloadStatesMap {
    open spec fn text_of(
        v: Seq<
            (
                Seq<char>,
                Seq<(Seq<char>, Seq<(Seq<char>, (Option<ank_base::ExecutionStateEnum>, Seq<char>))>)>,
            ),
        >,
    ) -> Seq<char> {
        "WorkloadStatesMap { agent_state_map: "@ + <KeyedList<
            KeyedList<KeyedList<ank_base::ExecutionState>>,
        > as DebugText>::text_of(v) + " }"@
    }

    fn debug_text(&self) -> (r: String) {
        let mut s = "WorkloadStatesMap { agent_state_map: ".to_owned();
        s.append(self.agent_state_map.debug_text().as_str());
        s.append(" }");
        s
    }
}

/// The text of a complete state whose view is `c`.
pub open spec fn complete_state_text(c: ank_base::CompleteStateView) -> Seq<char> {
    "CompleteState { desired_state: "@ + <Option<ank_base::State> as DebugText>::text_of(
        c.desired_state,
    ) + ", workload_states: "@ + <Option<ank_base::WorkloadStatesMap> as DebugText>::text_of(
        c.workload_states,
    ) + ", agents: "@ + <Option<KeyedList<ank_base::AgentAttributes>> as DebugText>::text_of(c.agents)
        + " }"@
}

impl DebugText for ank_base::CompleteState {
    open spec fn text_of(v: ank_base::CompleteStateView) -> Seq<char> {
        complete_state_text(v)
    }

    fn debug_text(&self) -> (r: String) {
        let mut s = "CompleteState { desired_state: ".to_owned();
        s.append(self.desired_state.debug_text().as_str());
        s.append(", workload_states: ");
        s.append(self.workload_states.debug_text().as_str());
        s.append(", agents: ");
        s.append(self.agents.debug_text().as_str());
        s.append(" }");
        s
    }
}

impl DebugText for ank_base::WorkloadInstanceName {
    open spec fn text_of(v: (Seq<char>, Seq<char>, Seq<char>)) -> Seq<char> {
        "WorkloadInstanceName { agent_name: "@ + str_debug_text(v.0) + ", workload_name: "@
            + str_debug_text(v.1) + ", id: "@ + str_debug_text(v.2) + " }"@
    }

    fn debug_text(&self) -> (r: String) {
        let mut s = "WorkloadInstanceName { agent_name: ".to_owned();
        s.append(self.agent_name.debug_text().as_str());
        s.append(", workload_name: ");
        s.append(self.workload_name.debug_text().as_str());
        s.append(", id: ");
        s.append(self.id.debug_text().as_str());
        s.append(" }");
        s
    }
}

impl DebugText for WorkloadInstanceName {
    open spec fn text_of(v: (Seq<char>, Seq<char>, Seq<char>)) -> Seq<char> {
        "WorkloadInstanceName { agent_name: "@ + str_debug_text(v.0) + ", workload_name: "@
            + str_debug_text(v.1) + ", workload_id: "@ + str_debug_text(v.2) + " }"@
    }

    fn debug_text(&self) -> (r: String) {
        let mut s = "WorkloadInstanceName { agent_name: ".to_owned();
        s.append(self.agent_name.debug_text().as_str());
        s.append(", workload_name: ");
        s.append(self.workload_name.debug_text().as_str());
        s.append(", workload_id: ");
        s.append(self.workload_id.debug_text().as_str());
        s.append(" }");
        s
    }
}

/// The text of request content whose view is `c`.
pub open spec fn request_content_text(c: ank_base::RequestContentView) -> Seq<char> {
    match c {
        ank_base::RequestContentView::CompleteStateRequest(masks) => "CompleteStateRequest(CompleteStateRequest { field_mask: "@
            + <Vec<String> as DebugText>::text_of(masks) + " })"@,
        ank_base::RequestContentView::UpdateStateRequest(state, masks) => "UpdateStateRequest(UpdateStateRequest { new_state: "@
            + <Option<ank_base::CompleteState> as DebugText>::text_of(state) + ", update_mask: "@
            + <Vec<String> as DebugText>::text_of(masks) + " })"@,
        ank_base::RequestContentView::LogsRequest(names, follow, tail, since, until) => "LogsRequest(LogsRequest { workload_names: "@
            + <Vec<ank_base::WorkloadInstanceName> as DebugText>::text_of(names) + ", follow: "@
            + <Option<bool> as DebugText>::text_of(follow) + ", tail: "@ + <Option<i32> as DebugText>::text_of(
            tail,
        ) + ", since: "@ + <Option<String> as DebugText>::text_of(since) + ", until: "@ + <Option<
            String,
        > as DebugText>::text_of(until) + " })"@,
        ank_base::RequestContentView::LogsCancelRequest => "LogsCancelRequest"@,
    }
}

impl DebugText for ank_base::RequestContent {
    open spec fn text_of(v: ank_base::RequestContentView) -> Seq<char> {
        request_content_text(v)
    }

    fn debug_text(&self) -> (r: String) {
        match self {
            ank_base::RequestContent::CompleteStateRequest(c) => {
                let mut s = "CompleteStateRequest(CompleteStateRequest { field_mask: ".to_owned();
                s.append(c.field_mask.debug_text().as_str());
                s.append(" })");
                s
            },
            ank_base::RequestContent::UpdateStateRequest(u) => {
                let mut s = "UpdateStateRequest(UpdateStateRequest { new_state: ".to_owned();
                s.append(u.new_state.debug_text().as_str());
                s.append(", update_mask: ");
                s.append(u.update_mask.debug_text().as_str());
                s.append(" })");
                s
            },
            ank_base::RequestContent::LogsRequest(l) => {
                let mut s = "LogsRequest(LogsRequest { workload_names: ".to_owned();
                s.append(l.workload_names.debug_text().as_str());
                s.append(", follow: ");
                s.append(l.follow.debug_text().as_str());
                s.append(", tail: ");
                s.append(l.tail.debug_text().as_str());
                s.append(", since: ");
                s.append(l.since.debug_text().as_str());
                s.append(", until: ");
                s.append(l.until.debug_text().as_str());
                s.append(" })");
                s
            },
            ank_base::RequestContent::LogsCancelRequest => "LogsCancelRequest".to_owned(),
        }
    }
}

/// The text of a request whose view is `r`.
pub open spec fn request_text(r: (Seq<char>, Option<ank_base::RequestContentView>)) -> Seq<char> {
    "Request { request_id: "@ + str_debug_text(r.0) + ", request_content: "@ + <Option<
        ank_base::RequestContent,
    > as DebugText>::text_of(r.1) + " }"@
}

impl DebugText for ank_base::Request {
    open spec fn text_of(v: (Seq<char>, Option<ank_base::RequestContentView>)) -> Seq<char> {
        request_text(v)
    }

    fn debug_text(&self) -> (r: String) {
        let mut s = "Request { request_id: ".to_owned();
        s.append(self.request_id.debug_text().as_str());
        s.append(", request_content: ");
        s.append(self.request_content.debug_text().as_str());
        s.append(" }");
        s
    }
}

} // verus!
