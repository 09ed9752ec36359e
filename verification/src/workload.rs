//! A workload of the Ankaios cluster: its desired configuration and the update
//! masks that say which of its fields a request changes.

use vstd::prelude::*;
use crate::ank_base;
use crate::errors::AnkaiosError;
use crate::keyed::KeyedList;
use crate::strings::{concat, contains_string, str_equal};
use crate::yaml::{
    YamlValue, YamlView, ystr, pairs_view, seq_view, lemma_pairs_view_push, lemma_seq_view_push,
};

verus! {

// ----------------------------------------------------------------------------
// Names and codes of the protocol's enumerations
// ----------------------------------------------------------------------------

/// The code of a restart policy name, if the name is one.
pub open spec fn restart_policy_code(name: Seq<char>) -> Option<i32> {
    if name == "NEVER"@ {
        Some(0i32)
    } else if name == "ON_FAILURE"@ {
        Some(1i32)
    } else if name == "ALWAYS"@ {
        Some(2i32)
    } else {
        None
    }
}

/// The name of a restart policy code, if the code is one.
pub open spec fn restart_policy_name(code: i32) -> Option<Seq<char>> {
    if code == 0 {
        Some("NEVER"@)
    } else if code == 1 {
        Some("ON_FAILURE"@)
    } else if code == 2 {
        Some("ALWAYS"@)
    } else {
        None
    }
}

/// The code of a dependency condition name, if the name is one.
pub open spec fn add_condition_code(name: Seq<char>) -> Option<i32> {
    if name == "ADD_COND_RUNNING"@ {
        Some(0i32)
    } else if name == "ADD_COND_SUCCEEDED"@ {
        Some(1i32)
    } else if name == "ADD_COND_FAILED"@ {
        Some(2i32)
    } else {
        None
    }
}

/// The name of a dependency condition code, if the code is one.
pub open spec fn add_condition_name(code: i32) -> Option<Seq<char>> {
    if code == 0 {
        Some("ADD_COND_RUNNING"@)
    } else if code == 1 {
        Some("ADD_COND_SUCCEEDED"@)
    } else if code == 2 {
        Some("ADD_COND_FAILED"@)
    } else {
        None
    }
}

/// The code of an access rule operation, if the name is one.
pub open spec fn operation_code(name: Seq<char>) -> Option<i32> {
    if name == "Nothing"@ {
        Some(0i32)
    } else if name == "Read"@ {
        Some(1i32)
    } else if name == "Write"@ {
        Some(2i32)
    } else if name == "ReadWrite"@ {
        Some(5i32)
    } else {
        None
    }
}

/// The name of an access rule operation code, if the code is one.
pub open spec fn operation_name(code: i32) -> Option<Seq<char>> {
    if code == 0 {
        Some("Nothing"@)
    } else if code == 1 {
        Some("Read"@)
    } else if code == 2 {
        Some("Write"@)
    } else if code == 5 {
        Some("ReadWrite"@)
    } else {
        None
    }
}

/// The code of a restart policy name.
pub fn restart_policy_from_name(name: &str) -> (r: Option<i32>)
    ensures
        r == restart_policy_code(name@),
{
    if str_equal(name, "NEVER") {
        Some(0)
    } else if str_equal(name, "ON_FAILURE") {
        Some(1)
    } else if str_equal(name, "ALWAYS") {
        Some(2)
    } else {
        None
    }
}

/// The name of a restart policy code.
pub fn restart_policy_to_name(code: i32) -> (r: Option<&'static str>)
    ensures
        match r {
            Some(n) => restart_policy_name(code) == Some(n@),
            None => restart_policy_name(code) is None,
        },
{
    if code == 0 {
        Some("NEVER")
    } else if code == 1 {
        Some("ON_FAILURE")
    } else if code == 2 {
        Some("ALWAYS")
    } else {
        None
    }
}

/// The code of a dependency condition name.
pub fn add_condition_from_name(name: &str) -> (r: Option<i32>)
    ensures
        r == add_condition_code(name@),
{
    if str_equal(name, "ADD_COND_RUNNING") {
        Some(0)
    } else if str_equal(name, "ADD_COND_SUCCEEDED") {
        Some(1)
    } else if str_equal(name, "ADD_COND_FAILED") {
        Some(2)
    } else {
        None
    }
}

/// The name of a dependency condition code.
pub fn add_condition_to_name(code: i32) -> (r: Option<&'static str>)
    ensures
        match r {
            Some(n) => add_condition_name(code) == Some(n@),
            None => add_condition_name(code) is None,
        },
{
    if code == 0 {
        Some("ADD_COND_RUNNING")
    } else if code == 1 {
        Some("ADD_COND_SUCCEEDED")
    } else if code == 2 {
        Some("ADD_COND_FAILED")
    } else {
        None
    }
}

/// The code of an access rule operation name.
pub fn operation_from_name(name: &str) -> (r: Option<i32>)
    ensures
        r == operation_code(name@),
{
    if str_equal(name, "Nothing") {
        Some(0)
    } else if str_equal(name, "Read") {
        Some(1)
    } else if str_equal(name, "Write") {
        Some(2)
    } else if str_equal(name, "ReadWrite") {
        Some(5)
    } else {
        None
    }
}

/// The name of an access rule operation code.
pub fn operation_to_name(code: i32) -> (r: Option<&'static str>)
    ensures
        match r {
            Some(n) => operation_name(code) == Some(n@),
            None => operation_name(code) is None,
        },
{
    if code == 0 {
        Some("Nothing")
    } else if code == 1 {
        Some("Read")
    } else if code == 2 {
        Some("Write")
    } else if code == 5 {
        Some("ReadWrite")
    } else {
        None
    }
}

// ----------------------------------------------------------------------------
// Update masks
// ----------------------------------------------------------------------------

/// The mask that covers the whole workload `name` in the desired state.
pub open spec fn workload_mask(name: Seq<char>) -> Seq<char> {
    "desiredState.workloads."@ + name
}

/// The masks after `mask` is added: it is added only if it is not there yet
/// and the mask of the whole workload, `main`, is not there either.
pub open spec fn with_mask(masks: Seq<Seq<char>>, main: Seq<char>, mask: Seq<char>) -> Seq<
    Seq<char>,
> {
    if masks.contains(mask) || masks.contains(main) {
        masks
    } else {
        masks.push(mask)
    }
}

// ----------------------------------------------------------------------------
// The workload
// ----------------------------------------------------------------------------

/// A workload: its desired configuration, its name, the mask of the whole
/// workload (`main_mask`) and the masks that a request to apply it uses.
#[derive(Debug, PartialEq, Eq)]
pub struct Workload {
    /// The desired configuration, as the protocol carries it.
    pub workload: ank_base::Workload,
    /// The mask of the whole workload.
    pub main_mask: String,
    /// The masks of the fields that were set.
    pub masks: Vec<String>,
    /// The name of the workload.
    pub name: String,
}

impl Workload {
    /// The masks as text.
    pub open spec fn mask_view(&self) -> Seq<Seq<char>> {
        self.masks.deep_view()
    }

    /// A workload named `name` with no field set, whose masks are the mask of
    /// the whole workload.
    pub fn new_from_builder(name: &str) -> (r: Self)
        ensures
            r.name@ == name@,
            r.main_mask@ == workload_mask(name@),
            r.mask_view() == seq![workload_mask(name@)],
            r.workload.deep_view() == ank_base::empty_workload_view(),
    {
        let main_mask = concat("desiredState.workloads.", name);
        let mut masks: Vec<String> = Vec::new();
        masks.push(main_mask.clone());
        let r = Workload {
            workload: ank_base::Workload::empty(),
            main_mask,
            masks,
            name: name.to_owned(),
        };
        proof {
            assert(r.mask_view() =~= seq![workload_mask(name@)]);
        }
        r
    }

    /// A workload named `name` with the configuration `proto` and no masks.
    pub fn new_from_proto(name: &str, proto: ank_base::Workload) -> (r: Self)
        ensures
            r.name@ == name@,
            r.main_mask@ == workload_mask(name@),
            r.mask_view() == Seq::<Seq<char>>::empty(),
            r.workload == proto,
    {
        let r = Workload {
            workload: proto,
            main_mask: concat("desiredState.workloads.", name),
            masks: Vec::new(),
            name: name.to_owned(),
        };
        proof {
            assert(r.mask_view() =~= Seq::<Seq<char>>::empty());
        }
        r
    }

    /// The configuration as the protocol carries it.
    pub fn to_proto(&self) -> (r: ank_base::Workload)
        ensures
            r.deep_view() == self.workload.deep_view(),
    {
        self.workload.duplicate()
    }

    /// Adds `mask` unless it is there already or the mask of the whole
    /// workload is there.
    fn add_mask(&mut self, mask: String)
        ensures
            final(self).mask_view() == with_mask(old(self).mask_view(), old(self).main_mask@, mask@),
            final(self).workload == old(self).workload,
            final(self).main_mask == old(self).main_mask,
            final(self).name == old(self).name,
    {
        if !contains_string(&self.masks, &mask) && !contains_string(&self.masks, &self.main_mask) {
            let ghost prev = self.masks@;
            self.masks.push(mask);
            proof {
                assert(self.masks@ == prev.push(mask));
                assert(self.mask_view() =~= old(self).mask_view().push(mask@));
            }
        }
    }

    /// Renames the workload; its masks become the mask of the whole renamed
    /// workload.
    pub fn update_workload_name(&mut self, new_name: &str)
        ensures
            final(self).name@ == new_name@,
            final(self).main_mask@ == workload_mask(new_name@),
            final(self).mask_view() == seq![workload_mask(new_name@)],
            final(self).workload == old(self).workload,
    {
        self.name = new_name.to_owned();
        self.main_mask = concat("desiredState.workloads.", new_name);
        let mut masks: Vec<String> = Vec::new();
        masks.push(self.main_mask.clone());
        self.masks = masks;
        proof {
            assert(self.mask_view() =~= seq![workload_mask(new_name@)]);
        }
    }

    /// Sets the agent that runs the workload.
    pub fn update_agent_name(&mut self, agent_name: &str)
        ensures
            final(self).workload == (ank_base::Workload { agent: final(self).workload.agent, ..old(self).workload }),
            final(self).workload.agent.deep_view() == Some(agent_name@),
            final(self).mask_view() == with_mask(
                old(self).mask_view(),
                old(self).main_mask@,
                old(self).main_mask@ + ".agent"@,
            ),
            final(self).main_mask == old(self).main_mask,
            final(self).name == old(self).name,
    {
        self.workload.agent = Some(agent_name.to_owned());
        let mask = concat(self.main_mask.as_str(), ".agent");
        self.add_mask(mask);
    }
}


// ----------------------------------------------------------------------------
// Specifications of the collections of a workload
// ----------------------------------------------------------------------------

/// The dependencies `deps` (workload name, condition name) as a map to
/// condition codes; a later entry for a name replaces an earlier one.
pub open spec fn condition_codes(deps: Seq<(Seq<char>, Seq<char>)>) -> Map<Seq<char>, i32>
    decreases deps.len(),
{
    if deps.len() == 0 {
        Map::empty()
    } else {
        condition_codes(deps.drop_last()).insert(
            deps.last().0,
            add_condition_code(deps.last().1).unwrap(),
        )
    }
}

/// Every condition of `deps` is a known condition name.
pub open spec fn conditions_valid(deps: Seq<(Seq<char>, Seq<char>)>) -> bool {
    forall|i: int| 0 <= i < deps.len() ==> (#[trigger] add_condition_code(deps[i].1)) is Some
}

/// The entries of `pairs` as a map; a later entry for a key replaces an
/// earlier one.
pub open spec fn pairs_map(pairs: Seq<(Seq<char>, Seq<char>)>) -> Map<Seq<char>, Seq<char>>
    decreases pairs.len(),
{
    if pairs.len() == 0 {
        Map::empty()
    } else {
        pairs_map(pairs.drop_last()).insert(pairs.last().0, pairs.last().1)
    }
}

/// The dependencies of a workload with their condition names, in order.
pub open spec fn named_conditions(entries: Seq<(String, i32)>) -> Seq<(Seq<char>, Seq<char>)> {
    Seq::new(
        entries.len(),
        |i: int| (entries[i].0@, add_condition_name(entries[i].1).unwrap()),
    )
}

/// Every dependency code of `w` is a known condition.
pub open spec fn dependency_codes_valid(w: ank_base::Workload) -> bool {
    match w.dependencies {
        Some(d) => forall|i: int|
            0 <= i < d.entries@.len() ==> (#[trigger] add_condition_name(d.entries@[i].1)) is Some,
        None => true,
    }
}

/// The tags of a workload as key-value lists.
pub open spec fn tag_lists(tags: Seq<ank_base::Tag>) -> Seq<Seq<Seq<char>>> {
    Seq::new(tags.len(), |i: int| seq![tags[i].key@, tags[i].value@])
}

/// The tags of a workload.
pub open spec fn workload_tags(w: ank_base::Workload) -> Seq<ank_base::Tag> {
    match w.tags {
        Some(t) => t@,
        None => Seq::empty(),
    }
}

/// Key-value lists as tags: the first item is the key, the second the value.
pub open spec fn tags_from_lists(tags: Seq<Seq<Seq<char>>>) -> Seq<(Seq<char>, Seq<char>)> {
    Seq::new(tags.len(), |i: int| (tags[i][0], tags[i][1]))
}

/// The masks of `masks` that do not begin with `prefix`, in order.
pub open spec fn without_prefix(masks: Seq<Seq<char>>, prefix: Seq<char>) -> Seq<Seq<char>>
    decreases masks.len(),
{
    if masks.len() == 0 {
        Seq::empty()
    } else if crate::strings::has_prefix(masks.last(), prefix) {
        without_prefix(masks.drop_last(), prefix)
    } else {
        without_prefix(masks.drop_last(), prefix).push(masks.last())
    }
}

/// Access rules given by operation names, as the protocol carries them.
pub open spec fn rules_as_codes(rules: Seq<(Seq<char>, Seq<Seq<char>>)>) -> Seq<
    Option<(i32, Seq<Seq<char>>)>,
> {
    Seq::new(rules.len(), |i: int| Some((operation_code(rules[i].0).unwrap(), rules[i].1)))
}

/// Every operation of `rules` is a known operation name.
pub open spec fn operations_valid(rules: Seq<(Seq<char>, Seq<Seq<char>>)>) -> bool {
    forall|i: int| 0 <= i < rules.len() ==> (#[trigger] operation_code(rules[i].0)) is Some
}

/// The rules on the state among `rules`, with operation names, in order.
pub open spec fn named_rules(rules: Seq<Option<(i32, Seq<Seq<char>>)>>) -> Seq<
    (Seq<char>, Seq<Seq<char>>),
>
    decreases rules.len(),
{
    if rules.len() == 0 {
        Seq::empty()
    } else {
        match rules.last() {
            Some((code, masks)) => named_rules(rules.drop_last()).push(
                (operation_name(code).unwrap(), masks),
            ),
            None => named_rules(rules.drop_last()),
        }
    }
}

/// Every rule on the state among `rules` has a known operation code.
pub open spec fn rule_codes_valid(rules: Seq<Option<(i32, Seq<Seq<char>>)>>) -> bool {
    forall|i: int|
        0 <= i < rules.len() && rules[i] is Some ==> (#[trigger] operation_name(
            rules[i].unwrap().0,
        )) is Some
}

/// Rule `k` of `rules` is the first rule on the state with an unknown code.
pub open spec fn first_bad_rule(rules: Seq<Option<(i32, Seq<Seq<char>>)>>, k: int) -> bool {
    &&& 0 <= k < rules.len()
    &&& rules[k] is Some
    &&& operation_name(rules[k].unwrap().0) is None
    &&& rule_codes_valid(rules.take(k))
}

/// The allow rules of a workload, as the protocol carries them.
pub open spec fn allow_rules_of(w: ank_base::Workload) -> Seq<Option<(i32, Seq<Seq<char>>)>> {
    match w.control_interface_access {
        Some(c) => c.allow_rules.deep_view(),
        None => Seq::empty(),
    }
}

/// The deny rules of a workload, as the protocol carries them.
pub open spec fn deny_rules_of(w: ank_base::Workload) -> Seq<Option<(i32, Seq<Seq<char>>)>> {
    match w.control_interface_access {
        Some(c) => c.deny_rules.deep_view(),
        None => Seq::empty(),
    }
}

/// The error for a field `field` of a workload holding the value `value`.
pub open spec fn is_field_error(e: AnkaiosError, field: Seq<char>, value: Seq<char>) -> bool {
    e matches AnkaiosError::WorkloadFieldError(f, v) && f@ == field && v@ == value
}

pub proof fn lemma_named_rules_step(rules: Seq<Option<(i32, Seq<Seq<char>>)>>, i: int)
    requires
        0 <= i < rules.len(),
    ensures
        named_rules(rules.take(i + 1)) == (match rules[i] {
            Some((code, masks)) => named_rules(rules.take(i)).push(
                (operation_name(code).unwrap(), masks),
            ),
            None => named_rules(rules.take(i)),
        }),
{
    assert(rules.take(i + 1).drop_last() =~= rules.take(i));
}

pub proof fn lemma_condition_codes_step(deps: Seq<(Seq<char>, Seq<char>)>, i: int)
    requires
        0 <= i < deps.len(),
    ensures
        condition_codes(deps.take(i + 1)) == condition_codes(deps.take(i)).insert(
            deps[i].0,
            add_condition_code(deps[i].1).unwrap(),
        ),
{
    assert(deps.take(i + 1).drop_last() =~= deps.take(i));
}

pub proof fn lemma_pairs_map_step(pairs: Seq<(Seq<char>, Seq<char>)>, i: int)
    requires
        0 <= i < pairs.len(),
    ensures
        pairs_map(pairs.take(i + 1)) == pairs_map(pairs.take(i)).insert(pairs[i].0, pairs[i].1),
{
    assert(pairs.take(i + 1).drop_last() =~= pairs.take(i));
}

pub proof fn lemma_without_prefix_step(masks: Seq<Seq<char>>, prefix: Seq<char>, i: int)
    requires
        0 <= i < masks.len(),
    ensures
        without_prefix(masks.take(i + 1), prefix) == (if crate::strings::has_prefix(
            masks[i],
            prefix,
        ) {
            without_prefix(masks.take(i), prefix)
        } else {
            without_prefix(masks.take(i), prefix).push(masks[i])
        }),
{
    assert(masks.take(i + 1).drop_last() =~= masks.take(i));
}

/// The protocol form of one access rule.
fn state_rule(operation: i32, filter_masks: &Vec<String>) -> (r: ank_base::AccessRightsRule)
    ensures
        r.deep_view() == Some((operation, filter_masks.deep_view())),
{
    ank_base::AccessRightsRule {
        state_rule: Some(
            ank_base::StateRule {
                operation,
                filter_masks: ank_base::clone_strings(filter_masks),
            },
        ),
    }
}

/// Converts access rules given by operation names to the protocol form, up to
/// the first rule with an unknown operation; returns the converted rules and
/// the position of that rule, if there is one.
fn convert_rules(rules: &Vec<(String, Vec<String>)>) -> (r: (
    Vec<ank_base::AccessRightsRule>,
    Option<usize>,
))
    ensures
        match r.1 {
            None => operations_valid(rules.deep_view()) && r.0.deep_view() == rules_as_codes(
                rules.deep_view(),
            ),
            Some(k) => k < rules@.len() && operations_valid(rules.deep_view().take(k as int))
                && operation_code(rules@[k as int].0@) is None && r.0.deep_view()
                == rules_as_codes(rules.deep_view().take(k as int)),
        },
{
    let ghost s = rules.deep_view();
    let mut out: Vec<ank_base::AccessRightsRule> = Vec::new();
    let mut i: usize = 0;
    while i < rules.len()
        invariant
            s == rules.deep_view(),
            0 <= i <= rules@.len(),
            operations_valid(s.take(i as int)),
            out.deep_view() == rules_as_codes(s.take(i as int)),
        decreases rules@.len() - i,
    {
        let code = operation_from_name(rules[i].0.as_str());
        match code {
            Some(c) => {
                let rule = state_rule(c, &rules[i].1);
                let ghost prev = out.deep_view();
                out.push(rule);
                proof {
                    assert(out.deep_view() =~= prev.push(rule.deep_view()));
                    assert(out.deep_view() =~= rules_as_codes(s.take(i + 1)));
                    assert(operations_valid(s.take(i + 1))) by {
                        assert forall|j: int| 0 <= j < s.take(i + 1).len() implies (
                        #[trigger] operation_code(s.take(i + 1)[j].0)) is Some by {
                            if j < i {
                                assert(s.take(i + 1)[j] == s.take(i as int)[j]);
                            }
                        }
                    }
                }
            },
            None => {
                return (out, Some(i));
            },
        }
        i = i + 1;
    }
    proof {
        assert(s.take(i as int) =~= s);
    }
    (out, None)
}

impl Workload {
    /// Sets the runtime of the workload.
    pub fn update_runtime(&mut self, runtime: &str)
        ensures
            final(self).workload == (ank_base::Workload { runtime: final(self).workload.runtime, ..old(self).workload }),
            final(self).workload.runtime.deep_view() == Some(runtime@),
            final(self).mask_view() == with_mask(
                old(self).mask_view(),
                old(self).main_mask@,
                old(self).main_mask@ + ".runtime"@,
            ),
            final(self).main_mask == old(self).main_mask,
            final(self).name == old(self).name,
    {
        self.workload.runtime = Some(runtime.to_owned());
        let mask = concat(self.main_mask.as_str(), ".runtime");
        self.add_mask(mask);
    }

    /// Sets the runtime configuration of the workload.
    pub fn update_runtime_config(&mut self, runtime_config: &str)
        ensures
            final(self).workload == (ank_base::Workload { runtime_config: final(self).workload.runtime_config, ..old(self).workload }),
            final(self).workload.runtime_config.deep_view() == Some(runtime_config@),
            final(self).mask_view() == with_mask(
                old(self).mask_view(),
                old(self).main_mask@,
                old(self).main_mask@ + ".runtimeConfig"@,
            ),
            final(self).main_mask == old(self).main_mask,
            final(self).name == old(self).name,
    {
        self.workload.runtime_config = Some(runtime_config.to_owned());
        let mask = concat(self.main_mask.as_str(), ".runtimeConfig");
        self.add_mask(mask);
    }

    /// Sets the restart policy by its name. An unknown name is refused with a
    /// field error and changes nothing.
    pub fn update_restart_policy(&mut self, restart_policy: &str) -> (r: Result<(), AnkaiosError>)
        ensures
            r is Ok <==> restart_policy_code(restart_policy@) is Some,
            r is Ok ==> final(self).workload == (ank_base::Workload {
                restart_policy: final(self).workload.restart_policy,
                ..old(self).workload
            }) && final(self).workload.restart_policy == restart_policy_code(restart_policy@)
                && final(self).mask_view() == with_mask(
                old(self).mask_view(),
                old(self).main_mask@,
                old(self).main_mask@ + ".restartPolicy"@,
            ),
            r matches Err(e) ==> is_field_error(e, "restartPolicy"@, restart_policy@) && *final(self) == *old(self),
            final(self).main_mask == old(self).main_mask,
            final(self).name == old(self).name,
    {
        match restart_policy_from_name(restart_policy) {
            Some(code) => {
                self.workload.restart_policy = Some(code);
                let mask = concat(self.main_mask.as_str(), ".restartPolicy");
                self.add_mask(mask);
                Ok(())
            },
            None => Err(
                AnkaiosError::WorkloadFieldError("restartPolicy".to_owned(), restart_policy.to_owned()),
            ),
        }
    }

    /// The dependencies: the names of the workloads this one depends on, with
    /// the names of their conditions, in order.
    pub fn get_dependencies(&self) -> (r: Vec<(String, String)>)
        requires
            dependency_codes_valid(self.workload),
        ensures
            r.deep_view() == match self.workload.dependencies {
                Some(d) => named_conditions(d.entries@),
                None => Seq::empty(),
            },
    {
        let mut out: Vec<(String, String)> = Vec::new();
        match &self.workload.dependencies {
            Some(d) => {
                let mut i: usize = 0;
                while i < d.entries.len()
                    invariant
                        self.workload.dependencies == Some(*d),
                        dependency_codes_valid(self.workload),
                        0 <= i <= d.entries@.len(),
                        out.deep_view() == named_conditions(d.entries@).take(i as int),
                    decreases d.entries@.len() - i,
                {
                    let name = match add_condition_to_name(d.entries[i].1) {
                        Some(n) => n,
                        None => {
                            proof {
                                assert(add_condition_name(d.entries@[i as int].1) is Some);
                            }
                            ""
                        },
                    };
                    let ghost prev = out.deep_view();
                    let pair = (d.entries[i].0.clone(), name.to_owned());
                    out.push(pair);
                    proof {
                        assert(out.deep_view() =~= prev.push(pair.deep_view()));
                        assert(out.deep_view() =~= named_conditions(d.entries@).take(i + 1));
                    }
                    i = i + 1;
                }
                proof {
                    assert(named_conditions(d.entries@).take(i as int) =~= named_conditions(
                        d.entries@,
                    ));
                }
            },
            None => {
                proof {
                    assert(out.deep_view() =~= Seq::<(Seq<char>, Seq<char>)>::empty());
                }
            },
        }
        out
    }

    /// Replaces the dependencies by `dependencies` (workload name, condition
    /// name). The entries are taken in order up to the first unknown
    /// condition, which is refused with a field error; then the dependencies
    /// hold the entries before it and the masks are unchanged.
    pub fn update_dependencies(&mut self, dependencies: Vec<(String, String)>) -> (r: Result<
        (),
        AnkaiosError,
    >)
        ensures
            r is Ok <==> conditions_valid(dependencies.deep_view()),
            final(self).workload.dependencies matches Some(d) && d.wf(),
            r is Ok ==> final(self).workload.dependencies.unwrap().map() == condition_codes(
                dependencies.deep_view(),
            ) && final(self).mask_view() == with_mask(
                old(self).mask_view(),
                old(self).main_mask@,
                old(self).main_mask@ + ".dependencies"@,
            ),
            r matches Err(e) ==> exists|k: int|
                0 <= k < dependencies@.len() && conditions_valid(
                    dependencies.deep_view().take(k),
                ) && add_condition_code(dependencies@[k].1@) is None && is_field_error(
                    e,
                    "dependency condition"@,
                    dependencies@[k].1@,
                ) && final(self).workload.dependencies.unwrap().map() == condition_codes(
                    dependencies.deep_view().take(k),
                ) && final(self).masks == old(self).masks,
            final(self).workload == (ank_base::Workload { dependencies: final(self).workload.dependencies, ..old(self).workload }),
            final(self).main_mask == old(self).main_mask,
            final(self).name == old(self).name,
    {
        let ghost s = dependencies.deep_view();
        let mut d: KeyedList<i32> = KeyedList::new();
        let mut i: usize = 0;
        proof {
            assert(s.take(0) =~= Seq::<(Seq<char>, Seq<char>)>::empty());
        }
        while i < dependencies.len()
            invariant
                s == dependencies.deep_view(),
                0 <= i <= dependencies@.len(),
                d.wf(),
                d.map() == condition_codes(s.take(i as int)),
                conditions_valid(s.take(i as int)),
                *self == *old(self),
            decreases dependencies@.len() - i,
        {
            match add_condition_from_name(dependencies[i].1.as_str()) {
                Some(code) => {
                    proof {
                        lemma_condition_codes_step(s, i as int);
                    }
                    d.insert(dependencies[i].0.clone(), code);
                    proof {
                        assert(conditions_valid(s.take(i + 1))) by {
                            assert forall|j: int| 0 <= j < s.take(i + 1).len() implies (
                            #[trigger] add_condition_code(s.take(i + 1)[j].1)) is Some by {
                                if j < i {
                                    assert(s.take(i + 1)[j] == s.take(i as int)[j]);
                                }
                            }
                        }
                    }
                },
                None => {
                    let value = dependencies[i].1.clone();
                    proof {
                        assert(add_condition_code(s[i as int].1) is None);
                    }
                    self.workload.dependencies = Some(d);
                    return Err(
                        AnkaiosError::WorkloadFieldError("dependency condition".to_owned(), value),
                    );
                },
            }
            i = i + 1;
        }
        proof {
            assert(s.take(i as int) =~= s);
        }
        self.workload.dependencies = Some(d);
        let mask = concat(self.main_mask.as_str(), ".dependencies");
        self.add_mask(mask);
        Ok(())
    }
}


/// The tags of a workload, as key-value pairs.
pub open spec fn tags_view(w: ank_base::Workload) -> Seq<(Seq<char>, Seq<char>)> {
    match w.tags {
        Some(t) => t.deep_view(),
        None => Seq::empty(),
    }
}

/// The config aliases of a workload with the names of the configs, in order.
pub open spec fn configs_view(w: ank_base::Workload) -> Seq<(Seq<char>, Seq<char>)> {
    match w.configs {
        Some(c) => c.deep_view(),
        None => Seq::empty(),
    }
}

/// A map to strings, with the strings taken as text.
pub open spec fn text_map(m: Map<Seq<char>, String>) -> Map<Seq<char>, Seq<char>> {
    Map::new(|k: Seq<char>| m.contains_key(k), |k: Seq<char>| m[k]@)
}

/// The config aliases of a workload as a map to config names.
pub open spec fn configs_map(w: ank_base::Workload) -> Map<Seq<char>, Seq<char>> {
    match w.configs {
        Some(c) => text_map(c.map()),
        None => Map::empty(),
    }
}

/// Converts rules in the protocol form to operation names, in order, leaving
/// out rules of another kind than rules on the state; stops at the first rule
/// whose operation code is unknown.
fn rules_to_names(rules: &Vec<ank_base::AccessRightsRule>) -> (r: Result<
    Vec<(String, Vec<String>)>,
    AnkaiosError,
>)
    ensures
        r is Ok <==> rule_codes_valid(rules.deep_view()),
        r matches Ok(v) ==> v.deep_view() == named_rules(rules.deep_view()),
        r matches Err(e) ==> exists|k: int|
            first_bad_rule(rules.deep_view(), k) && is_field_error(
                e,
                "operation"@,
                crate::strings::signed_decimal(rules.deep_view()[k].unwrap().0 as int),
            ),
{
    let ghost s = rules.deep_view();
    let mut out: Vec<(String, Vec<String>)> = Vec::new();
    let mut i: usize = 0;
    proof {
        assert(s.take(0) =~= Seq::<Option<(i32, Seq<Seq<char>>)>>::empty());
    }
    while i < rules.len()
        invariant
            s == rules.deep_view(),
            0 <= i <= rules@.len(),
            rule_codes_valid(s.take(i as int)),
            out.deep_view() == named_rules(s.take(i as int)),
        decreases rules@.len() - i,
    {
        proof {
            lemma_named_rules_step(s, i as int);
        }
        match &rules[i].state_rule {
            Some(sr) => {
                match operation_to_name(sr.operation) {
                    Some(n) => {
                        let ghost prev = out.deep_view();
                        let item = (n.to_owned(), ank_base::clone_strings(&sr.filter_masks));
                        out.push(item);
                        proof {
                            assert(out.deep_view() =~= prev.push(item.deep_view()));
                        }
                    },
                    None => {
                        proof {
                            assert(s[i as int] == Some((sr.operation, sr.filter_masks.deep_view())));
                            assert(first_bad_rule(s, i as int));
                        }
                        return Err(
                            AnkaiosError::WorkloadFieldError(
                                "operation".to_owned(),
                                crate::strings::i32_to_text(sr.operation),
                            ),
                        );
                    },
                }
            },
            None => {},
        }
        proof {
            assert(rule_codes_valid(s.take(i + 1))) by {
                assert forall|j: int|
                    0 <= j < s.take(i + 1).len() && s.take(i + 1)[j] is Some implies (
                #[trigger] operation_name(s.take(i + 1)[j].unwrap().0)) is Some by {
                    if j < i {
                        assert(s.take(i + 1)[j] == s.take(i as int)[j]);
                    }
                }
            }
        }
        i = i + 1;
    }
    proof {
        assert(s.take(i as int) =~= s);
        assert forall|k: int| !first_bad_rule(s, k) by {}
    }
    Ok(out)
}

impl Workload {
    /// Adds a tag. Its mask is added unless the mask of all tags is there.
    pub fn add_tag(&mut self, key: &str, value: &str)
        ensures
            final(self).workload == (ank_base::Workload { tags: final(self).workload.tags, ..old(self).workload }),
            final(self).workload.tags.deep_view() == Some(tags_view(old(self).workload).push((key@, value@))),
            final(self).mask_view() == if old(self).mask_view().contains(
                old(self).main_mask@ + ".tags"@,
            ) {
                old(self).mask_view()
            } else {
                with_mask(
                    old(self).mask_view(),
                    old(self).main_mask@,
                    old(self).main_mask@ + ".tags."@ + key@,
                )
            },
            final(self).main_mask == old(self).main_mask,
            final(self).name == old(self).name,
    {
        let mut tags = match &self.workload.tags {
            Some(t) => ank_base::clone_tags(t),
            None => Vec::new(),
        };
        proof {
            assert(tags.deep_view() =~= tags_view(old(self).workload));
        }
        let ghost prev = tags.deep_view();
        let tag = ank_base::Tag { key: key.to_owned(), value: value.to_owned() };
        tags.push(tag);
        proof {
            assert(tags.deep_view() =~= prev.push((key@, value@)));
        }
        self.workload.tags = Some(tags);
        let all_tags = concat(self.main_mask.as_str(), ".tags");
        if !contains_string(&self.masks, &all_tags) {
            let prefix = concat(self.main_mask.as_str(), ".tags.");
            let mask = concat(prefix.as_str(), key);
            self.add_mask(mask);
        }
    }

    /// The tags, each as a list of its key and its value.
    pub fn get_tags(&self) -> (r: Vec<Vec<String>>)
        ensures
            r.deep_view() == tag_lists(workload_tags(self.workload)),
    {
        let mut out: Vec<Vec<String>> = Vec::new();
        let empty: Vec<ank_base::Tag> = Vec::new();
        let tags = match &self.workload.tags {
            Some(t) => t,
            None => &empty,
        };
        let mut i: usize = 0;
        while i < tags.len()
            invariant
                tags@ == workload_tags(self.workload),
                0 <= i <= tags@.len(),
                out.deep_view() == tag_lists(tags@).take(i as int),
            decreases tags@.len() - i,
        {
            let mut item: Vec<String> = Vec::new();
            item.push(tags[i].key.clone());
            item.push(tags[i].value.clone());
            let ghost prev = out.deep_view();
            proof {
                assert(item.deep_view() =~= seq![tags@[i as int].key@, tags@[i as int].value@]);
            }
            out.push(item);
            proof {
                assert(out.deep_view() =~= prev.push(item.deep_view()));
                assert(out.deep_view() =~= tag_lists(tags@).take(i + 1));
            }
            i = i + 1;
        }
        proof {
            assert(tag_lists(tags@).take(i as int) =~= tag_lists(tags@));
        }
        out
    }

    /// Replaces the tags by `tags`, each a list of a key and a value; the
    /// masks of single tags give way to the mask of all tags.
    pub fn update_tags(&mut self, tags: &Vec<Vec<String>>)
        requires
            forall|i: int| 0 <= i < tags@.len() ==> (#[trigger] tags@[i])@.len() >= 2,
        ensures
            final(self).workload == (ank_base::Workload { tags: final(self).workload.tags, ..old(self).workload }),
            final(self).workload.tags.deep_view() == Some(tags_from_lists(tags.deep_view())),
            final(self).mask_view() == with_mask(
                without_prefix(old(self).mask_view(), old(self).main_mask@ + ".tags"@),
                old(self).main_mask@,
                old(self).main_mask@ + ".tags"@,
            ),
            final(self).main_mask == old(self).main_mask,
            final(self).name == old(self).name,
    {
        let ghost lists = tags.deep_view();
        let mut out: Vec<ank_base::Tag> = Vec::new();
        let mut i: usize = 0;
        while i < tags.len()
            invariant
                lists == tags.deep_view(),
                forall|j: int| 0 <= j < tags@.len() ==> (#[trigger] tags@[j])@.len() >= 2,
                0 <= i <= tags@.len(),
                out.deep_view() == tags_from_lists(lists).take(i as int),
            decreases tags@.len() - i,
        {
            assert(tags@[i as int]@.len() >= 2);
            let tag = ank_base::Tag { key: tags[i][0].clone(), value: tags[i][1].clone() };
            let ghost prev = out.deep_view();
            out.push(tag);
            proof {
                assert(out.deep_view() =~= prev.push(tag.deep_view()));
                assert(out.deep_view() =~= tags_from_lists(lists).take(i + 1));
            }
            i = i + 1;
        }
        proof {
            assert(tags_from_lists(lists).take(i as int) =~= tags_from_lists(lists));
        }
        self.workload.tags = Some(out);
        let prefix = concat(self.main_mask.as_str(), ".tags");
        let ghost old_masks = self.mask_view();
        let mut kept: Vec<String> = Vec::new();
        let mut j: usize = 0;
        proof {
            assert(old_masks.take(0) =~= Seq::<Seq<char>>::empty());
        }
        while j < self.masks.len()
            invariant
                old_masks == self.mask_view(),
                0 <= j <= old_masks.len(),
                kept.deep_view() == without_prefix(old_masks.take(j as int), prefix@),
            decreases old_masks.len() - j,
        {
            proof {
                lemma_without_prefix_step(old_masks, prefix@, j as int);
            }
            if !crate::strings::starts_with(self.masks[j].as_str(), prefix.as_str()) {
                let ghost prev = kept.deep_view();
                let m = self.masks[j].clone();
                kept.push(m);
                proof {
                    assert(kept.deep_view() =~= prev.push(m@));
                }
            }
            j = j + 1;
        }
        proof {
            assert(old_masks.take(j as int) =~= old_masks);
        }
        self.masks = kept;
        self.add_mask(prefix);
    }

    /// The allow rules, each as an operation name and filter masks; rules of
    /// another kind than rules on the state are left out. An unknown
    /// operation code is refused with a field error.
    pub fn get_allow_rules(&self) -> (r: Result<Vec<(String, Vec<String>)>, AnkaiosError>)
        ensures
            r is Ok <==> rule_codes_valid(allow_rules_of(self.workload)),
            r matches Ok(v) ==> v.deep_view() == named_rules(allow_rules_of(self.workload)),
            r matches Err(e) ==> exists|k: int|
                first_bad_rule(allow_rules_of(self.workload), k) && is_field_error(
                    e,
                    "operation"@,
                    crate::strings::signed_decimal(
                        allow_rules_of(self.workload)[k].unwrap().0 as int,
                    ),
                ),
    {
        match &self.workload.control_interface_access {
            Some(c) => rules_to_names(&c.allow_rules),
            None => {
                let out: Vec<(String, Vec<String>)> = Vec::new();
                proof {
                    assert(out.deep_view() =~= named_rules(allow_rules_of(self.workload)));
                    assert forall|k: int| !first_bad_rule(allow_rules_of(self.workload), k) by {}
                }
                Ok(out)
            },
        }
    }

    /// The deny rules, each as an operation name and filter masks; rules of
    /// another kind than rules on the state are left out. An unknown
    /// operation code is refused with a field error.
    pub fn get_deny_rules(&self) -> (r: Result<Vec<(String, Vec<String>)>, AnkaiosError>)
        ensures
            r is Ok <==> rule_codes_valid(deny_rules_of(self.workload)),
            r matches Ok(v) ==> v.deep_view() == named_rules(deny_rules_of(self.workload)),
            r matches Err(e) ==> exists|k: int|
                first_bad_rule(deny_rules_of(self.workload), k) && is_field_error(
                    e,
                    "operation"@,
                    crate::strings::signed_decimal(
                        deny_rules_of(self.workload)[k].unwrap().0 as int,
                    ),
                ),
    {
        match &self.workload.control_interface_access {
            Some(c) => rules_to_names(&c.deny_rules),
            None => {
                let out: Vec<(String, Vec<String>)> = Vec::new();
                proof {
                    assert(out.deep_view() =~= named_rules(deny_rules_of(self.workload)));
                    assert forall|k: int| !first_bad_rule(deny_rules_of(self.workload), k) by {}
                }
                Ok(out)
            },
        }
    }

    /// Replaces the allow rules by `rules`, each an operation name and filter
    /// masks. The rules are taken in order up to the first unknown operation,
    /// which is refused with a field error; then the allow rules hold the
    /// rules before it and the masks are unchanged. The deny rules stay.
    pub fn update_allow_rules(&mut self, rules: Vec<(String, Vec<String>)>) -> (r: Result<
        (),
        AnkaiosError,
    >)
        ensures
            r is Ok <==> operations_valid(rules.deep_view()),
            final(self).workload.control_interface_access is Some,
            deny_rules_of(final(self).workload) == deny_rules_of(old(self).workload),
            r is Ok ==> allow_rules_of(final(self).workload) == rules_as_codes(rules.deep_view())
                && final(self).mask_view() == with_mask(
                old(self).mask_view(),
                old(self).main_mask@,
                old(self).main_mask@ + ".controlInterfaceAccess.allowRules"@,
            ),
            r matches Err(e) ==> exists|k: int|
                0 <= k < rules@.len() && operations_valid(rules.deep_view().take(k))
                    && operation_code(rules@[k].0@) is None && is_field_error(
                    e,
                    "operation"@,
                    rules@[k].0@,
                ) && allow_rules_of(final(self).workload) == rules_as_codes(
                    rules.deep_view().take(k),
                ) && final(self).masks == old(self).masks,
            final(self).workload == (ank_base::Workload { control_interface_access: final(self).workload.control_interface_access, ..old(self).workload }),
            final(self).main_mask == old(self).main_mask,
            final(self).name == old(self).name,
    {
        let deny = match &self.workload.control_interface_access {
            Some(c) => ank_base::clone_rules(&c.deny_rules),
            None => Vec::new(),
        };
        proof {
            assert(deny.deep_view() =~= deny_rules_of(old(self).workload));
        }
        let (allow, bad) = convert_rules(&rules);
        self.workload.control_interface_access = Some(
            ank_base::ControlInterfaceAccess { allow_rules: allow, deny_rules: deny },
        );
        match bad {
            Some(k) => {
                proof {
                    assert(rules.deep_view()[k as int].0 == rules@[k as int].0@);
                    assert(operation_code(rules.deep_view()[k as int].0) is None);
                }
                Err(AnkaiosError::WorkloadFieldError("operation".to_owned(), rules[k].0.clone()))
            },
            None => {
                let mask = concat(self.main_mask.as_str(), ".controlInterfaceAccess.allowRules");
                self.add_mask(mask);
                Ok(())
            },
        }
    }

    /// Replaces the deny rules by `rules`, each an operation name and filter
    /// masks. The rules are taken in order up to the first unknown operation,
    /// which is refused with a field error; then the deny rules hold the
    /// rules before it and the masks are unchanged. The allow rules stay.
    pub fn update_deny_rules(&mut self, rules: Vec<(String, Vec<String>)>) -> (r: Result<
        (),
        AnkaiosError,
    >)
        ensures
            r is Ok <==> operations_valid(rules.deep_view()),
            final(self).workload.control_interface_access is Some,
            allow_rules_of(final(self).workload) == allow_rules_of(old(self).workload),
            r is Ok ==> deny_rules_of(final(self).workload) == rules_as_codes(rules.deep_view())
                && final(self).mask_view() == with_mask(
                old(self).mask_view(),
                old(self).main_mask@,
                old(self).main_mask@ + ".controlInterfaceAccess.denyRules"@,
            ),
            r matches Err(e) ==> exists|k: int|
                0 <= k < rules@.len() && operations_valid(rules.deep_view().take(k))
                    && operation_code(rules@[k].0@) is None && is_field_error(
                    e,
                    "operation"@,
                    rules@[k].0@,
                ) && deny_rules_of(final(self).workload) == rules_as_codes(
                    rules.deep_view().take(k),
                ) && final(self).masks == old(self).masks,
            final(self).workload == (ank_base::Workload { control_interface_access: final(self).workload.control_interface_access, ..old(self).workload }),
            final(self).main_mask == old(self).main_mask,
            final(self).name == old(self).name,
    {
        let allow = match &self.workload.control_interface_access {
            Some(c) => ank_base::clone_rules(&c.allow_rules),
            None => Vec::new(),
        };
        proof {
            assert(allow.deep_view() =~= allow_rules_of(old(self).workload));
        }
        let (deny, bad) = convert_rules(&rules);
        self.workload.control_interface_access = Some(
            ank_base::ControlInterfaceAccess { allow_rules: allow, deny_rules: deny },
        );
        match bad {
            Some(k) => {
                proof {
                    assert(rules.deep_view()[k as int].0 == rules@[k as int].0@);
                    assert(operation_code(rules.deep_view()[k as int].0) is None);
                }
                Err(AnkaiosError::WorkloadFieldError("operation".to_owned(), rules[k].0.clone()))
            },
            None => {
                let mask = concat(self.main_mask.as_str(), ".controlInterfaceAccess.denyRules");
                self.add_mask(mask);
                Ok(())
            },
        }
    }

    /// Maps the config alias `alias` to the config `name`, replacing an
    /// earlier mapping of the alias.
    pub fn add_config(&mut self, alias: &str, name: &str)
        requires
            old(self).workload.wf(),
        ensures
            final(self).workload.wf(),
            final(self).workload.configs is Some,
            configs_map(final(self).workload) == configs_map(old(self).workload).insert(
                alias@,
                name@,
            ),
            final(self).workload == (ank_base::Workload { configs: final(self).workload.configs, ..old(self).workload }),
            final(self).mask_view() == with_mask(
                old(self).mask_view(),
                old(self).main_mask@,
                old(self).main_mask@ + ".configs"@,
            ),
            final(self).main_mask == old(self).main_mask,
            final(self).name == old(self).name,
    {
        let mut configs = match &self.workload.configs {
            Some(c) => ank_base::clone_string_map(c),
            None => KeyedList::new(),
        };
        let ghost prev = configs.map();
        configs.insert(alias.to_owned(), name.to_owned());
        proof {
            assert(text_map(configs.map()) =~= text_map(prev).insert(alias@, name@));
        }
        self.workload.configs = Some(configs);
        let mask = concat(self.main_mask.as_str(), ".configs");
        self.add_mask(mask);
    }

    /// The config aliases with the names of their configs, in order.
    pub fn get_configs(&self) -> (r: Vec<(String, String)>)
        ensures
            r.deep_view() == configs_view(self.workload),
    {
        let mut out: Vec<(String, String)> = Vec::new();
        let empty: Vec<(String, String)> = Vec::new();
        let entries = match &self.workload.configs {
            Some(c) => &c.entries,
            None => &empty,
        };
        let mut i: usize = 0;
        while i < entries.len()
            invariant
                entries.deep_view() == configs_view(self.workload),
                0 <= i <= entries@.len(),
                out.deep_view() == entries.deep_view().take(i as int),
            decreases entries@.len() - i,
        {
            let ghost prev = out.deep_view();
            let item = (entries[i].0.clone(), entries[i].1.clone());
            out.push(item);
            proof {
                assert(out.deep_view() =~= prev.push(item.deep_view()));
                assert(out.deep_view() =~= entries.deep_view().take(i + 1));
            }
            i = i + 1;
        }
        proof {
            assert(entries.deep_view().take(i as int) =~= entries.deep_view());
        }
        out
    }

    /// Replaces the config mappings by `configs` (alias, config name); a
    /// later entry for an alias replaces an earlier one. The masks are
    /// unchanged.
    pub fn update_configs(&mut self, configs: Vec<(String, String)>)
        ensures
            final(self).workload.configs matches Some(c) && c.wf() && text_map(c.map()) == pairs_map(
                configs.deep_view(),
            ),
            final(self).workload == (ank_base::Workload { configs: final(self).workload.configs, ..old(self).workload }),
            final(self).masks == old(self).masks,
            final(self).main_mask == old(self).main_mask,
            final(self).name == old(self).name,
    {
        let ghost s = configs.deep_view();
        let mut c: KeyedList<String> = KeyedList::new();
        let mut i: usize = 0;
        proof {
            assert(s.take(0) =~= Seq::<(Seq<char>, Seq<char>)>::empty());
        }
        while i < configs.len()
            invariant
                s == configs.deep_view(),
                0 <= i <= configs@.len(),
                c.wf(),
                text_map(c.map()) == pairs_map(s.take(i as int)),
            decreases configs@.len() - i,
        {
            proof {
                lemma_pairs_map_step(s, i as int);
            }
            let ghost prev = c.map();
            c.insert(configs[i].0.clone(), configs[i].1.clone());
            proof {
                assert(text_map(c.map()) =~= text_map(prev).insert(s[i as int].0, s[i as int].1));
            }
            i = i + 1;
        }
        proof {
            assert(s.take(i as int) =~= s);
        }
        self.workload.configs = Some(c);
    }
}


// ----------------------------------------------------------------------------
// The mapping form of a workload
// ----------------------------------------------------------------------------

/// A one-entry sequence holding `e` when `present`, else an empty one.
pub open spec fn entry_if(present: bool, e: (YamlView, YamlView)) -> Seq<(YamlView, YamlView)> {
    if present {
        seq![e]
    } else {
        Seq::empty()
    }
}

/// Filter masks as a YAML sequence of strings.
pub open spec fn masks_yaml(masks: Seq<Seq<char>>) -> YamlView {
    YamlView::Sequence(Seq::new(masks.len(), |i: int| ystr(masks[i])))
}

/// The mapping form of access rules, in order: a rule of another kind than a
/// rule on the state gives only its type; a rule on the state with an unknown
/// operation code is left out.
pub open spec fn rule_dicts(rules: Seq<Option<(i32, Seq<Seq<char>>)>>) -> Seq<YamlView>
    decreases rules.len(),
{
    if rules.len() == 0 {
        Seq::empty()
    } else {
        let prev = rule_dicts(rules.drop_last());
        match rules.last() {
            None => prev.push(YamlView::Mapping(seq![(ystr("type"@), ystr("StateRule"@))])),
            Some((code, masks)) => match operation_name(code) {
                Some(op) => prev.push(
                    YamlView::Mapping(
                        seq![
                            (ystr("type"@), ystr("StateRule"@)),
                            (ystr("operation"@), ystr(op)),
                            (ystr("filterMask"@), masks_yaml(masks)),
                        ],
                    ),
                ),
                None => prev,
            },
        }
    }
}

/// The mapping form of the control interface access: the allow rules and
/// the deny rules, each only when there is a rule to write.
pub open spec fn access_dict(
    allow: Seq<Option<(i32, Seq<Seq<char>>)>>,
    deny: Seq<Option<(i32, Seq<Seq<char>>)>>,
) -> YamlView {
    YamlView::Mapping(
        entry_if(
            rule_dicts(allow).len() > 0,
            (ystr("allowRules"@), YamlView::Sequence(rule_dicts(allow))),
        ) + entry_if(
            rule_dicts(deny).len() > 0,
            (ystr("denyRules"@), YamlView::Sequence(rule_dicts(deny))),
        ),
    )
}

/// The mapping form of the dependencies: workload name to condition name.
pub open spec fn dependencies_dict(entries: Seq<(String, i32)>) -> YamlView {
    YamlView::Mapping(
        Seq::new(
            entries.len(),
            |i: int| (ystr(entries[i].0@), ystr(add_condition_name(entries[i].1).unwrap())),
        ),
    )
}

/// The mapping form of a tag.
pub open spec fn tag_dict(t: ank_base::Tag) -> YamlView {
    YamlView::Mapping(seq![(ystr("key"@), ystr(t.key@)), (ystr("value"@), ystr(t.value@))])
}

/// The sequence form of the tags.
pub open spec fn tags_dict(tags: Seq<ank_base::Tag>) -> YamlView {
    YamlView::Sequence(Seq::new(tags.len(), |i: int| tag_dict(tags[i])))
}

/// The mapping form of the config mappings: alias to config name.
pub open spec fn configs_dict(entries: Seq<(String, String)>) -> YamlView {
    YamlView::Mapping(Seq::new(entries.len(), |i: int| (ystr(entries[i].0@), ystr(entries[i].1@))))
}

/// The mapping form of a workload: each field that is set, in the order
/// agent, runtime, runtimeConfig, restartPolicy, dependencies, tags,
/// controlInterfaceAccess, configs.
pub open spec fn workload_dict(w: ank_base::Workload) -> YamlView {
    YamlView::Mapping(
        entry_if(w.agent is Some, (ystr("agent"@), ystr(w.agent.unwrap()@))) + entry_if(
            w.runtime is Some,
            (ystr("runtime"@), ystr(w.runtime.unwrap()@)),
        ) + entry_if(
            w.runtime_config is Some,
            (ystr("runtimeConfig"@), ystr(w.runtime_config.unwrap()@)),
        ) + entry_if(
            w.restart_policy is Some,
            (ystr("restartPolicy"@), ystr(restart_policy_name(w.restart_policy.unwrap()).unwrap())),
        ) + entry_if(
            w.dependencies is Some,
            (ystr("dependencies"@), dependencies_dict(w.dependencies.unwrap().entries@)),
        ) + entry_if(w.tags is Some, (ystr("tags"@), tags_dict(w.tags.unwrap()@))) + entry_if(
            w.control_interface_access is Some,
            (
                ystr("controlInterfaceAccess"@),
                access_dict(
                    w.control_interface_access.unwrap().allow_rules.deep_view(),
                    w.control_interface_access.unwrap().deny_rules.deep_view(),
                ),
            ),
        ) + entry_if(w.configs is Some, (ystr("configs"@), configs_dict(w.configs.unwrap().entries@))),
    )
}

/// The restart policy code of `w`, if set, is a known code.
pub open spec fn restart_policy_valid(w: ank_base::Workload) -> bool {
    w.restart_policy matches Some(c) ==> restart_policy_name(c) is Some
}

fn masks_to_yaml(masks: &Vec<String>) -> (r: YamlValue)
    ensures
        r@ == masks_yaml(masks.deep_view()),
{
    let mut items: Vec<YamlValue> = Vec::new();
    let mut i: usize = 0;
    while i < masks.len()
        invariant
            0 <= i <= masks@.len(),
            seq_view(items@) == Seq::new(i as nat, |j: int| ystr(masks.deep_view()[j])),
        decreases masks@.len() - i,
    {
        let item = YamlValue::from_string(masks[i].clone());
        proof {
            lemma_seq_view_push(items@, item);
        }
        items.push(item);
        proof {
            assert(seq_view(items@) =~= Seq::new((i + 1) as nat, |j: int| ystr(masks.deep_view()[j])));
        }
        i = i + 1;
    }
    proof {
        assert(seq_view(items@) =~= Seq::new(masks.deep_view().len(), |j: int| ystr(masks.deep_view()[j])));
    }
    YamlValue::Sequence(items)
}

pub proof fn lemma_rule_dicts_step(rules: Seq<Option<(i32, Seq<Seq<char>>)>>, i: int)
    requires
        0 <= i < rules.len(),
    ensures
        rule_dicts(rules.take(i + 1)) == ({
            let prev = rule_dicts(rules.take(i));
            match rules[i] {
                None => prev.push(YamlView::Mapping(seq![(ystr("type"@), ystr("StateRule"@))])),
                Some((code, masks)) => match operation_name(code) {
                    Some(op) => prev.push(
                        YamlView::Mapping(
                            seq![
                                (ystr("type"@), ystr("StateRule"@)),
                                (ystr("operation"@), ystr(op)),
                                (ystr("filterMask"@), masks_yaml(masks)),
                            ],
                        ),
                    ),
                    None => prev,
                },
            }
        }),
{
    assert(rules.take(i + 1).drop_last() =~= rules.take(i));
}

fn rules_to_yaml(rules: &Vec<ank_base::AccessRightsRule>) -> (r: Vec<YamlValue>)
    ensures
        seq_view(r@) == rule_dicts(rules.deep_view()),
{
    let ghost s = rules.deep_view();
    let mut out: Vec<YamlValue> = Vec::new();
    let mut i: usize = 0;
    proof {
        assert(s.take(0) =~= Seq::<Option<(i32, Seq<Seq<char>>)>>::empty());
    }
    while i < rules.len()
        invariant
            s == rules.deep_view(),
            0 <= i <= rules@.len(),
            seq_view(out@) == rule_dicts(s.take(i as int)),
        decreases rules@.len() - i,
    {
        proof {
            lemma_rule_dicts_step(s, i as int);
        }
        let mut entries: Vec<(YamlValue, YamlValue)> = Vec::new();
        let k1 = YamlValue::from_str_slice("type");
        let v1 = YamlValue::from_str_slice("StateRule");
        proof {
            lemma_pairs_view_push(entries@, k1, v1);
        }
        entries.push((k1, v1));
        match &rules[i].state_rule {
            Some(sr) => {
                match operation_to_name(sr.operation) {
                    Some(op) => {
                        let k2 = YamlValue::from_str_slice("operation");
                        let v2 = YamlValue::from_str_slice(op);
                        proof {
                            lemma_pairs_view_push(entries@, k2, v2);
                        }
                        entries.push((k2, v2));
                        let k3 = YamlValue::from_str_slice("filterMask");
                        let v3 = masks_to_yaml(&sr.filter_masks);
                        proof {
                            lemma_pairs_view_push(entries@, k3, v3);
                        }
                        entries.push((k3, v3));
                        let item = YamlValue::from_entries(entries);
                        proof {
                            assert(s[i as int] == Some((sr.operation, sr.filter_masks.deep_view())));
                            assert(pairs_view(entries@) =~= seq![
                                (ystr("type"@), ystr("StateRule"@)),
                                (ystr("operation"@), ystr(op@)),
                                (ystr("filterMask"@), masks_yaml(sr.filter_masks.deep_view())),
                            ]);
                            lemma_seq_view_push(out@, item);
                        }
                        out.push(item);
                    },
                    None => {
                        proof {
                            assert(s[i as int] == Some((sr.operation, sr.filter_masks.deep_view())));
                        }
                    },
                }
            },
            None => {
                let item = YamlValue::from_entries(entries);
                proof {
                    assert(pairs_view(entries@) =~= seq![(ystr("type"@), ystr("StateRule"@))]);
                    lemma_seq_view_push(out@, item);
                }
                out.push(item);
            },
        }
        i = i + 1;
    }
    proof {
        assert(s.take(i as int) =~= s);
    }
    out
}

fn access_to_yaml(c: &ank_base::ControlInterfaceAccess) -> (r: YamlValue)
    ensures
        r@ == access_dict(c.allow_rules.deep_view(), c.deny_rules.deep_view()),
{
    let mut entries: Vec<(YamlValue, YamlValue)> = Vec::new();
    let allow = rules_to_yaml(&c.allow_rules);
    let deny = rules_to_yaml(&c.deny_rules);
    proof {
        crate::yaml::lemma_seq_view_len(allow@);
        crate::yaml::lemma_seq_view_len(deny@);
    }
    let ghost e0 = pairs_view(entries@);
    if allow.len() > 0 {
        let k = YamlValue::from_str_slice("allowRules");
        let v = YamlValue::Sequence(allow);
        proof {
            lemma_pairs_view_push(entries@, k, v);
        }
        entries.push((k, v));
    }
    let ghost e1 = pairs_view(entries@);
    proof {
        assert(e1 =~= entry_if(
            rule_dicts(c.allow_rules.deep_view()).len() > 0,
            (ystr("allowRules"@), YamlView::Sequence(rule_dicts(c.allow_rules.deep_view()))),
        ));
    }
    if deny.len() > 0 {
        let k = YamlValue::from_str_slice("denyRules");
        let v = YamlValue::Sequence(deny);
        proof {
            lemma_pairs_view_push(entries@, k, v);
        }
        entries.push((k, v));
    }
    proof {
        assert(pairs_view(entries@) =~= e1 + entry_if(
            rule_dicts(c.deny_rules.deep_view()).len() > 0,
            (ystr("denyRules"@), YamlView::Sequence(rule_dicts(c.deny_rules.deep_view()))),
        ));
    }
    YamlValue::from_entries(entries)
}

fn dependencies_to_yaml(d: &KeyedList<i32>) -> (r: YamlValue)
    requires
        forall|i: int|
            0 <= i < d.entries@.len() ==> (#[trigger] add_condition_name(d.entries@[i].1)) is Some,
    ensures
        r@ == dependencies_dict(d.entries@),
{
    let ghost target = Seq::new(
        d.entries@.len(),
        |i: int| (ystr(d.entries@[i].0@), ystr(add_condition_name(d.entries@[i].1).unwrap())),
    );
    let mut entries: Vec<(YamlValue, YamlValue)> = Vec::new();
    let mut i: usize = 0;
    while i < d.entries.len()
        invariant
            0 <= i <= d.entries@.len(),
            forall|j: int|
                0 <= j < d.entries@.len() ==> (#[trigger] add_condition_name(d.entries@[j].1)) is Some,
            target == Seq::new(
                d.entries@.len(),
                |j: int| (ystr(d.entries@[j].0@), ystr(add_condition_name(d.entries@[j].1).unwrap())),
            ),
            pairs_view(entries@) == target.take(i as int),
        decreases d.entries@.len() - i,
    {
        let name = match add_condition_to_name(d.entries[i].1) {
            Some(n) => n,
            None => {
                proof {
                    assert(add_condition_name(d.entries@[i as int].1) is Some);
                }
                ""
            },
        };
        let k = YamlValue::from_string(d.entries[i].0.clone());
        let v = YamlValue::from_str_slice(name);
        proof {
            lemma_pairs_view_push(entries@, k, v);
        }
        entries.push((k, v));
        proof {
            assert(pairs_view(entries@) =~= target.take(i + 1));
        }
        i = i + 1;
    }
    proof {
        assert(target.take(i as int) =~= target);
    }
    YamlValue::from_entries(entries)
}

fn tags_to_yaml(tags: &Vec<ank_base::Tag>) -> (r: YamlValue)
    ensures
        r@ == tags_dict(tags@),
{
    let ghost target = Seq::new(tags@.len(), |i: int| tag_dict(tags@[i]));
    let mut items: Vec<YamlValue> = Vec::new();
    let mut i: usize = 0;
    while i < tags.len()
        invariant
            0 <= i <= tags@.len(),
            target == Seq::new(tags@.len(), |j: int| tag_dict(tags@[j])),
            seq_view(items@) == target.take(i as int),
        decreases tags@.len() - i,
    {
        let mut entries: Vec<(YamlValue, YamlValue)> = Vec::new();
        let k1 = YamlValue::from_str_slice("key");
        let v1 = YamlValue::from_string(tags[i].key.clone());
        proof {
            lemma_pairs_view_push(entries@, k1, v1);
        }
        entries.push((k1, v1));
        let k2 = YamlValue::from_str_slice("value");
        let v2 = YamlValue::from_string(tags[i].value.clone());
        proof {
            lemma_pairs_view_push(entries@, k2, v2);
        }
        entries.push((k2, v2));
        let item = YamlValue::from_entries(entries);
        proof {
            assert(pairs_view(entries@) =~= seq![
                (ystr("key"@), ystr(tags@[i as int].key@)),
                (ystr("value"@), ystr(tags@[i as int].value@)),
            ]);
            lemma_seq_view_push(items@, item);
        }
        items.push(item);
        proof {
            assert(seq_view(items@) =~= target.take(i + 1));
        }
        i = i + 1;
    }
    proof {
        assert(target.take(i as int) =~= target);
    }
    YamlValue::Sequence(items)
}

fn configs_to_yaml(c: &KeyedList<String>) -> (r: YamlValue)
    ensures
        r@ == configs_dict(c.entries@),
{
    let ghost target = Seq::new(
        c.entries@.len(),
        |i: int| (ystr(c.entries@[i].0@), ystr(c.entries@[i].1@)),
    );
    let mut entries: Vec<(YamlValue, YamlValue)> = Vec::new();
    let mut i: usize = 0;
    while i < c.entries.len()
        invariant
            0 <= i <= c.entries@.len(),
            target == Seq::new(
                c.entries@.len(),
                |j: int| (ystr(c.entries@[j].0@), ystr(c.entries@[j].1@)),
            ),
            pairs_view(entries@) == target.take(i as int),
        decreases c.entries@.len() - i,
    {
        let k = YamlValue::from_string(c.entries[i].0.clone());
        let v = YamlValue::from_string(c.entries[i].1.clone());
        proof {
            lemma_pairs_view_push(entries@, k, v);
        }
        entries.push((k, v));
        proof {
            assert(pairs_view(entries@) =~= target.take(i + 1));
        }
        i = i + 1;
    }
    proof {
        assert(target.take(i as int) =~= target);
    }
    YamlValue::from_entries(entries)
}

impl Workload {
    /// The workload as a mapping: each field that is set, by its name in
    /// the manifest format.
    #[verifier::spinoff_prover]
    #[verifier::rlimit(50)]
    pub fn to_dict(&self) -> (r: YamlValue)
        requires
            restart_policy_valid(self.workload),
            dependency_codes_valid(self.workload),
        ensures
            r@ == workload_dict(self.workload),
    {
        let w = &self.workload;
        let mut entries: Vec<(YamlValue, YamlValue)> = Vec::new();
        let ghost mut acc: Seq<(YamlView, YamlView)> = Seq::empty();
        if let Some(a) = &w.agent {
            let k = YamlValue::from_str_slice("agent");
            let v = YamlValue::from_string(a.clone());
            proof {
                lemma_pairs_view_push(entries@, k, v);
            }
            entries.push((k, v));
        }
        proof {
            acc = entry_if(w.agent is Some, (ystr("agent"@), ystr(w.agent.unwrap()@)));
            assert(pairs_view(entries@) =~= acc);
        }
        if let Some(a) = &w.runtime {
            let k = YamlValue::from_str_slice("runtime");
            let v = YamlValue::from_string(a.clone());
            proof {
                lemma_pairs_view_push(entries@, k, v);
            }
            entries.push((k, v));
        }
        proof {
            acc = acc + entry_if(w.runtime is Some, (ystr("runtime"@), ystr(w.runtime.unwrap()@)));
            assert(pairs_view(entries@) =~= acc);
        }
        if let Some(a) = &w.runtime_config {
            let k = YamlValue::from_str_slice("runtimeConfig");
            let v = YamlValue::from_string(a.clone());
            proof {
                lemma_pairs_view_push(entries@, k, v);
            }
            entries.push((k, v));
        }
        proof {
            acc = acc + entry_if(
                w.runtime_config is Some,
                (ystr("runtimeConfig"@), ystr(w.runtime_config.unwrap()@)),
            );
            assert(pairs_view(entries@) =~= acc);
        }
        if let Some(code) = w.restart_policy {
            let name = match restart_policy_to_name(code) {
                Some(n) => n,
                None => "",
            };
            let k = YamlValue::from_str_slice("restartPolicy");
            let v = YamlValue::from_str_slice(name);
            proof {
                lemma_pairs_view_push(entries@, k, v);
            }
            entries.push((k, v));
        }
        proof {
            acc = acc + entry_if(
                w.restart_policy is Some,
                (ystr("restartPolicy"@), ystr(restart_policy_name(w.restart_policy.unwrap()).unwrap())),
            );
            assert(pairs_view(entries@) =~= acc);
        }
        if let Some(d) = &w.dependencies {
            let k = YamlValue::from_str_slice("dependencies");
            let v = dependencies_to_yaml(d);
            proof {
                lemma_pairs_view_push(entries@, k, v);
            }
            entries.push((k, v));
        }
        proof {
            acc = acc + entry_if(
                w.dependencies is Some,
                (ystr("dependencies"@), dependencies_dict(w.dependencies.unwrap().entries@)),
            );
            assert(pairs_view(entries@) =~= acc);
        }
        if let Some(t) = &w.tags {
            let k = YamlValue::from_str_slice("tags");
            let v = tags_to_yaml(t);
            proof {
                lemma_pairs_view_push(entries@, k, v);
            }
            entries.push((k, v));
        }
        proof {
            acc = acc + entry_if(w.tags is Some, (ystr("tags"@), tags_dict(w.tags.unwrap()@)));
            assert(pairs_view(entries@) =~= acc);
        }
        if let Some(c) = &w.control_interface_access {
            let k = YamlValue::from_str_slice("controlInterfaceAccess");
            let v = access_to_yaml(c);
            proof {
                lemma_pairs_view_push(entries@, k, v);
            }
            entries.push((k, v));
        }
        proof {
            acc = acc + entry_if(
                w.control_interface_access is Some,
                (
                    ystr("controlInterfaceAccess"@),
                    access_dict(
                        w.control_interface_access.unwrap().allow_rules.deep_view(),
                        w.control_interface_access.unwrap().deny_rules.deep_view(),
                    ),
                ),
            );
            assert(pairs_view(entries@) =~= acc);
        }
        if let Some(c) = &w.configs {
            let k = YamlValue::from_str_slice("configs");
            let v = configs_to_yaml(c);
            proof {
                lemma_pairs_view_push(entries@, k, v);
            }
            entries.push((k, v));
        }
        proof {
            acc = acc + entry_if(
                w.configs is Some,
                (ystr("configs"@), configs_dict(w.configs.unwrap().entries@)),
            );
            assert(pairs_view(entries@) =~= acc);
        }
        YamlValue::from_entries(entries)
    }
}


/// Two workloads with the same name, masks and configuration.
pub open spec fn same_workload(a: Workload, b: Workload) -> bool {
    &&& a.name@ == b.name@
    &&& a.main_mask@ == b.main_mask@
    &&& a.mask_view() == b.mask_view()
    &&& a.workload.deep_view() == b.workload.deep_view()
}

impl Workload {
    /// A copy of this workload.
    pub fn duplicate(&self) -> (r: Self)
        ensures
            same_workload(r, *self),
    {
        Workload {
            workload: self.workload.duplicate(),
            main_mask: self.main_mask.clone(),
            masks: ank_base::clone_strings(&self.masks),
            name: self.name.clone(),
        }
    }
}


impl DeepView for Workload {
    type V = (Seq<char>, Seq<char>, Seq<Seq<char>>, ank_base::WorkloadView);

    open spec fn deep_view(&self) -> (Seq<char>, Seq<char>, Seq<Seq<char>>, ank_base::WorkloadView) {
        (self.name@, self.main_mask@, self.mask_view(), self.workload.deep_view())
    }
}

} // verus!
