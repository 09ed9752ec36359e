//! A builder that collects the fields of a workload and builds it, checking
//! that the mandatory fields are set and that the named values are known.

use vstd::prelude::*;
use crate::ank_base;
use crate::errors::AnkaiosError;
use crate::workload::{
    Workload, workload_mask, restart_policy_code, add_condition_code, operation_code,
    conditions_valid, operations_valid, condition_codes, pairs_map, text_map, rules_as_codes,
    tags_from_lists, is_field_error, with_mask, without_prefix,
};

verus! {

/// A builder of workloads. The name, the agent, the runtime and the runtime
/// configuration are mandatory; the other fields are optional.
#[derive(Debug)]
pub struct WorkloadBuilder {
    /// The name of the workload.
    pub wl_name: String,
    /// The agent that runs the workload.
    pub wl_agent_name: String,
    /// The runtime of the workload.
    pub wl_runtime: String,
    /// The runtime configuration of the workload.
    pub wl_runtime_config: String,
    /// The name of the restart policy, if one was given.
    pub wl_restart_policy: Option<String>,
    /// The dependencies: workload names with condition names.
    pub dependencies: Vec<(String, String)>,
    /// The tags, each a list of a key and a value.
    pub tags: Vec<Vec<String>>,
    /// The allow rules: operation names with filter masks.
    pub allow_rules: Vec<(String, Vec<String>)>,
    /// The deny rules: operation names with filter masks.
    pub deny_rules: Vec<(String, Vec<String>)>,
    /// The config mappings: aliases with config names.
    pub configs: Vec<(String, String)>,
}

/// The dependencies `s` with the dependency on the workload `n` set to the
/// condition `c`: an entry for `n` takes `c` in its place; if there is none,
/// `(n, c)` is appended.
pub open spec fn put_dependency(s: Seq<(Seq<char>, Seq<char>)>, n: Seq<char>, c: Seq<char>) -> Seq<
    (Seq<char>, Seq<char>),
> {
    if exists|i: int| 0 <= i < s.len() && s[i].0 == n {
        Seq::new(s.len(), |i: int| if s[i].0 == n { (n, c) } else { s[i] })
    } else {
        s.push((n, c))
    }
}

/// The dependencies that adding the dependencies `s` one by one, in order,
/// leaves: for each workload, the last condition given for it.
pub open spec fn put_dependencies(s: Seq<(Seq<char>, Seq<char>)>) -> Seq<(Seq<char>, Seq<char>)>
    decreases s.len(),
{
    if s.len() == 0 {
        Seq::empty()
    } else {
        put_dependency(put_dependencies(s.drop_last()), s.last().0, s.last().1)
    }
}

/// No workload has two entries in `s`.
pub open spec fn names_distinct(s: Seq<(Seq<char>, Seq<char>)>) -> bool {
    forall|i: int, j: int| 0 <= i < s.len() && 0 <= j < s.len() && i != j ==> s[i].0 != s[j].0
}

/// Adding dependencies whose workloads are all distinct keeps them as they
/// are.
pub proof fn lemma_put_dependencies_distinct(s: Seq<(Seq<char>, Seq<char>)>)
    requires
        names_distinct(s),
    ensures
        put_dependencies(s) == s,
    decreases s.len(),
{
    if s.len() > 0 {
        let p = s.drop_last();
        assert(names_distinct(p)) by {
            assert forall|i: int, j: int| 0 <= i < p.len() && 0 <= j < p.len() && i != j implies p[i].0
                != p[j].0 by {
                assert(p[i] == s[i] && p[j] == s[j]);
            }
        }
        lemma_put_dependencies_distinct(p);
        assert(!(exists|i: int| 0 <= i < p.len() && p[i].0 == s.last().0)) by {
            if exists|i: int| 0 <= i < p.len() && p[i].0 == s.last().0 {
                let i = choose|i: int| 0 <= i < p.len() && p[i].0 == s.last().0;
                assert(s[i].0 == s[s.len() - 1].0);
            }
        }
        assert(p.push(s.last()) =~= s);
    }
}

/// Setting a dependency keeps the workloads of the dependencies distinct.
pub proof fn lemma_put_dependency_distinct(s: Seq<(Seq<char>, Seq<char>)>, n: Seq<char>, c: Seq<char>)
    requires
        names_distinct(s),
    ensures
        names_distinct(put_dependency(s, n, c)),
{
    let r = put_dependency(s, n, c);
    if exists|i: int| 0 <= i < s.len() && s[i].0 == n {
        assert forall|i: int, j: int| 0 <= i < r.len() && 0 <= j < r.len() && i != j implies r[i].0
            != r[j].0 by {
            assert(r[i].0 == s[i].0 && r[j].0 == s[j].0);
        }
    } else {
        assert forall|i: int, j: int| 0 <= i < r.len() && 0 <= j < r.len() && i != j implies r[i].0
            != r[j].0 by {
            if i < s.len() && j < s.len() {
                assert(r[i] == s[i] && r[j] == s[j]);
            } else if i < s.len() {
                assert(r[i] == s[i]);
            } else {
                assert(r[j] == s[j]);
            }
        }
    }
}

/// Dependency `k` is the first one whose condition is unknown.
pub open spec fn first_bad_condition(deps: Seq<(Seq<char>, Seq<char>)>, k: int) -> bool {
    &&& 0 <= k < deps.len()
    &&& conditions_valid(deps.take(k))
    &&& add_condition_code(deps[k].1) is None
}

/// Rule `k` is the first one whose operation is unknown.
pub open spec fn first_bad_operation(rules: Seq<(Seq<char>, Seq<Seq<char>>)>, k: int) -> bool {
    &&& 0 <= k < rules.len()
    &&& operations_valid(rules.take(k))
    &&& operation_code(rules[k].0) is None
}

/// `e` is a builder error with the message `msg`.
pub open spec fn is_builder_error(e: AnkaiosError, msg: Seq<char>) -> bool {
    e matches AnkaiosError::WorkloadBuilderError(m) && m@ == msg
}

/// Building from `b` reaches its tags: the mandatory fields are set, the
/// restart policy, if any, is known, and every dependency condition is known.
pub open spec fn reaches_tags(b: WorkloadBuilder) -> bool {
    &&& b.wl_name@.len() > 0
    &&& b.wl_agent_name@.len() > 0
    &&& b.wl_runtime@.len() > 0
    &&& b.wl_runtime_config@.len() > 0
    &&& (b.wl_restart_policy matches Some(p) ==> restart_policy_code(p@) is Some)
    &&& conditions_valid(b.dependencies.deep_view())
}

/// Every tag of the builder has a key and a value.
pub open spec fn tags_complete(tags: Seq<Vec<String>>) -> bool {
    forall|i: int| 0 <= i < tags.len() ==> (#[trigger] tags[i])@.len() >= 2
}

/// `w` is the workload that the builder `b` describes: named as the builder
/// says, with only the mask of the whole workload, the mandatory fields set
/// and each optional field set exactly when the builder has a value for it.
pub open spec fn built_workload(b: WorkloadBuilder, w: Workload) -> bool {
    let wl = w.workload;
    &&& w.name@ == b.wl_name@
    &&& w.main_mask@ == workload_mask(b.wl_name@)
    &&& w.mask_view() == seq![workload_mask(b.wl_name@)]
    &&& wl.wf()
    &&& wl.agent.deep_view() == Some(b.wl_agent_name@)
    &&& wl.runtime.deep_view() == Some(b.wl_runtime@)
    &&& wl.runtime_config.deep_view() == Some(b.wl_runtime_config@)
    &&& wl.restart_policy == match b.wl_restart_policy {
        Some(p) => restart_policy_code(p@),
        None => None,
    }
    &&& (b.dependencies@.len() == 0 <==> wl.dependencies is None)
    &&& (wl.dependencies matches Some(d) ==> d.map() == condition_codes(b.dependencies.deep_view()))
    &&& (b.tags@.len() == 0 <==> wl.tags is None)
    &&& (wl.tags matches Some(t) ==> t.deep_view() == tags_from_lists(b.tags.deep_view()))
    &&& (b.allow_rules@.len() == 0 && b.deny_rules@.len() == 0 <==> wl.control_interface_access
        is None)
    &&& (wl.control_interface_access matches Some(c) ==> c.allow_rules.deep_view()
        == rules_as_codes(b.allow_rules.deep_view()) && c.deny_rules.deep_view() == rules_as_codes(
        b.deny_rules.deep_view(),
    ))
    &&& (b.configs@.len() == 0 <==> wl.configs is None)
    &&& (wl.configs matches Some(c) ==> text_map(c.map()) == pairs_map(b.configs.deep_view()))
}

/// What building from `b` gives: the first missing mandatory field, in the
/// order name, agent, runtime, runtime configuration, is refused with a
/// builder error; then an unknown restart policy, dependency condition,
/// allow rule operation or deny rule operation, in that order, with a field
/// error; otherwise the workload that `b` describes. The dependencies are
/// those of the builder; `add_dependency` keeps one per workload, the last
/// condition given for it.
pub open spec fn build_outcome(b: WorkloadBuilder, r: Result<Workload, AnkaiosError>) -> bool {
    let deps = b.dependencies.deep_view();
    let allow = b.allow_rules.deep_view();
    let deny = b.deny_rules.deep_view();
    if b.wl_name@.len() == 0 {
        r matches Err(e) && is_builder_error(e, "Workload can not be built without a name."@)
    } else if b.wl_agent_name@.len() == 0 {
        r matches Err(e) && is_builder_error(e, "Workload can not be built without an agent name."@)
    } else if b.wl_runtime@.len() == 0 {
        r matches Err(e) && is_builder_error(e, "Workload can not be built without a runtime."@)
    } else if b.wl_runtime_config@.len() == 0 {
        r matches Err(e) && is_builder_error(
            e,
            "Workload can not be built without a runtime config."@,
        )
    } else if b.wl_restart_policy matches Some(p) && restart_policy_code(p@) is None {
        r matches Err(e) && is_field_error(e, "restartPolicy"@, b.wl_restart_policy.unwrap()@)
    } else if !conditions_valid(deps) {
        r matches Err(e) && exists|k: int|
            first_bad_condition(deps, k) && is_field_error(e, "dependency condition"@, deps[k].1)
    } else if !operations_valid(allow) {
        r matches Err(e) && exists|k: int|
            first_bad_operation(allow, k) && is_field_error(e, "operation"@, allow[k].0)
    } else if !operations_valid(deny) {
        r matches Err(e) && exists|k: int|
            first_bad_operation(deny, k) && is_field_error(e, "operation"@, deny[k].0)
    } else {
        r matches Ok(w) && built_workload(b, w)
    }
}

/// Building from `b` succeeds: the mandatory fields are set and every named
/// value is known.
pub open spec fn build_succeeds(b: WorkloadBuilder) -> bool {
    &&& b.wl_name@.len() > 0
    &&& b.wl_agent_name@.len() > 0
    &&& b.wl_runtime@.len() > 0
    &&& b.wl_runtime_config@.len() > 0
    &&& (b.wl_restart_policy matches Some(p) ==> restart_policy_code(p@) is Some)
    &&& conditions_valid(b.dependencies.deep_view())
    &&& operations_valid(b.allow_rules.deep_view())
    &&& operations_valid(b.deny_rules.deep_view())
}

/// Building refuses a builder that misses a mandatory field with the builder
/// error that names the first one missing, in the order name, agent name,
/// runtime, runtime configuration; with all four set, building never gives a
/// builder error.
pub proof fn law_build_missing_fields(b: WorkloadBuilder, r: Result<Workload, AnkaiosError>)
    requires
        build_outcome(b, r),
    ensures
        b.wl_name@.len() == 0 ==> (r matches Err(e) && is_builder_error(
            e,
            "Workload can not be built without a name."@,
        )),
        b.wl_name@.len() > 0 && b.wl_agent_name@.len() == 0 ==> (r matches Err(e) && is_builder_error(
            e,
            "Workload can not be built without an agent name."@,
        )),
        b.wl_name@.len() > 0 && b.wl_agent_name@.len() > 0 && b.wl_runtime@.len() == 0 ==> (r matches Err(
            e,
        ) && is_builder_error(e, "Workload can not be built without a runtime."@)),
        b.wl_name@.len() > 0 && b.wl_agent_name@.len() > 0 && b.wl_runtime@.len() > 0
            && b.wl_runtime_config@.len() == 0 ==> (r matches Err(e) && is_builder_error(
            e,
            "Workload can not be built without a runtime config."@,
        )),
        b.wl_name@.len() > 0 && b.wl_agent_name@.len() > 0 && b.wl_runtime@.len() > 0
            && b.wl_runtime_config@.len() > 0 ==> !(r matches Err(AnkaiosError::WorkloadBuilderError(_))),
{
}

proof fn lemma_only_main_mask(main: Seq<char>)
    ensures
        without_prefix(seq![main], main + ".tags"@) == seq![main],
        seq![main].contains(main),
{
    let p = main + ".tags"@;
    reveal_strlit(".tags");
    assert(!crate::strings::has_prefix(main, p));
    assert(seq![main].drop_last() =~= Seq::<Seq<char>>::empty());
    assert(seq![main][0] == main);
    assert(without_prefix(Seq::<Seq<char>>::empty(), p) == Seq::<Seq<char>>::empty());
    assert(Seq::<Seq<char>>::empty().push(main) =~= seq![main]);
}

impl WorkloadBuilder {
    /// A builder with no field set.
    pub fn new() -> (r: Self)
        ensures
            r.wl_name@ == Seq::<char>::empty(),
            r.wl_agent_name@ == Seq::<char>::empty(),
            r.wl_runtime@ == Seq::<char>::empty(),
            r.wl_runtime_config@ == Seq::<char>::empty(),
            r.wl_restart_policy is None,
            r.dependencies@.len() == 0,
            r.tags@.len() == 0,
            r.allow_rules@.len() == 0,
            r.deny_rules@.len() == 0,
            r.configs@.len() == 0,
    {
        WorkloadBuilder {
            wl_name: String::new(),
            wl_agent_name: String::new(),
            wl_runtime: String::new(),
            wl_runtime_config: String::new(),
            wl_restart_policy: None,
            dependencies: Vec::new(),
            tags: Vec::new(),
            allow_rules: Vec::new(),
            deny_rules: Vec::new(),
            configs: Vec::new(),
        }
    }

    /// Sets the name of the workload.
    pub fn workload_name(self, name: &str) -> (r: Self)
        ensures
            r.wl_name@ == name@,
            r == (WorkloadBuilder { wl_name: r.wl_name, ..self }),
    {
        let mut b = self;
        b.wl_name = name.to_owned();
        b
    }

    /// Sets the agent that runs the workload.
    pub fn agent_name(self, name: &str) -> (r: Self)
        ensures
            r.wl_agent_name@ == name@,
            r == (WorkloadBuilder { wl_agent_name: r.wl_agent_name, ..self }),
    {
        let mut b = self;
        b.wl_agent_name = name.to_owned();
        b
    }

    /// Sets the runtime of the workload.
    pub fn runtime(self, runtime: &str) -> (r: Self)
        ensures
            r.wl_runtime@ == runtime@,
            r == (WorkloadBuilder { wl_runtime: r.wl_runtime, ..self }),
    {
        let mut b = self;
        b.wl_runtime = runtime.to_owned();
        b
    }

    /// Sets the runtime configuration of the workload.
    pub fn runtime_config(self, runtime_config: &str) -> (r: Self)
        ensures
            r.wl_runtime_config@ == runtime_config@,
            r == (WorkloadBuilder { wl_runtime_config: r.wl_runtime_config, ..self }),
    {
        let mut b = self;
        b.wl_runtime_config = runtime_config.to_owned();
        b
    }

    /// Sets the name of the restart policy.
    pub fn restart_policy(self, restart_policy: &str) -> (r: Self)
        ensures
            r.wl_restart_policy matches Some(p) && p@ == restart_policy@,
            r == (WorkloadBuilder { wl_restart_policy: r.wl_restart_policy, ..self }),
    {
        let mut b = self;
        b.wl_restart_policy = Some(restart_policy.to_owned());
        b
    }

    /// Sets the dependency on the workload `workload_name` to the condition
    /// named `condition`: a dependency on that workload takes the condition
    /// in its place, otherwise the dependency is added at the end.
    pub fn add_dependency(self, workload_name: &str, condition: &str) -> (r: Self)
        ensures
            r.dependencies.deep_view() == put_dependency(
                self.dependencies.deep_view(),
                workload_name@,
                condition@,
            ),
            r == (WorkloadBuilder { dependencies: r.dependencies, ..self }),
    {
        let mut b = self;
        let ghost prev = b.dependencies.deep_view();
        let ghost n = workload_name@;
        let ghost c = condition@;
        let mut found = false;
        let mut i: usize = 0;
        while i < b.dependencies.len()
            invariant
                prev == self.dependencies.deep_view(),
                n == workload_name@,
                c == condition@,
                b == (WorkloadBuilder { dependencies: b.dependencies, ..self }),
                0 <= i <= b.dependencies@.len(),
                b.dependencies@.len() == prev.len(),
                forall|j: int|
                    0 <= j < i ==> (#[trigger] b.dependencies.deep_view()[j]) == (if prev[j].0 == n {
                        (n, c)
                    } else {
                        prev[j]
                    }),
                forall|j: int| i <= j < prev.len() ==> (#[trigger] b.dependencies.deep_view()[j]) == prev[j],
                found <==> exists|j: int| 0 <= j < i && prev[j].0 == n,
            decreases b.dependencies@.len() - i,
        {
            proof {
                assert(b.dependencies.deep_view()[i as int] == prev[i as int]);
            }
            if crate::strings::str_equal(b.dependencies[i].0.as_str(), workload_name) {
                let ghost before = b.dependencies.deep_view();
                b.dependencies.set(i, (workload_name.to_owned(), condition.to_owned()));
                proof {
                    assert(b.dependencies.deep_view() =~= before.update(i as int, (n, c)));
                }
                found = true;
            }
            i = i + 1;
        }
        if !found {
            let ghost before = b.dependencies.deep_view();
            b.dependencies.push((workload_name.to_owned(), condition.to_owned()));
            proof {
                assert(before =~= prev);
                assert(b.dependencies.deep_view() =~= prev.push((n, c)));
            }
        } else {
            proof {
                assert(b.dependencies.deep_view() =~= Seq::new(
                    prev.len(),
                    |j: int| if prev[j].0 == n { (n, c) } else { prev[j] },
                ));
            }
        }
        b
    }

    /// Adds a tag.
    pub fn add_tag(self, key: &str, value: &str) -> (r: Self)
        ensures
            r.tags.deep_view() == self.tags.deep_view().push(seq![key@, value@]),
            r.tags@.last()@.len() == 2,
            r.tags@.drop_last() == self.tags@,
            r == (WorkloadBuilder { tags: r.tags, ..self }),
    {
        let mut b = self;
        let ghost prev = b.tags.deep_view();
        let mut item: Vec<String> = Vec::new();
        item.push(key.to_owned());
        item.push(value.to_owned());
        proof {
            assert(item.deep_view() =~= seq![key@, value@]);
        }
        b.tags.push(item);
        proof {
            assert(b.tags.deep_view() =~= prev.push(item.deep_view()));
        }
        b
    }

    /// Adds an allow rule with the operation named `operation`.
    pub fn add_allow_rule(self, operation: &str, filter_masks: Vec<String>) -> (r: Self)
        ensures
            r.allow_rules.deep_view() == self.allow_rules.deep_view().push(
                (operation@, filter_masks.deep_view()),
            ),
            r == (WorkloadBuilder { allow_rules: r.allow_rules, ..self }),
    {
        let mut b = self;
        let ghost prev = b.allow_rules.deep_view();
        let item = (operation.to_owned(), filter_masks);
        b.allow_rules.push(item);
        proof {
            assert(b.allow_rules.deep_view() =~= prev.push(item.deep_view()));
        }
        b
    }

    /// Adds a deny rule with the operation named `operation`.
    pub fn add_deny_rule(self, operation: &str, filter_masks: Vec<String>) -> (r: Self)
        ensures
            r.deny_rules.deep_view() == self.deny_rules.deep_view().push(
                (operation@, filter_masks.deep_view()),
            ),
            r == (WorkloadBuilder { deny_rules: r.deny_rules, ..self }),
    {
        let mut b = self;
        let ghost prev = b.deny_rules.deep_view();
        let item = (operation.to_owned(), filter_masks);
        b.deny_rules.push(item);
        proof {
            assert(b.deny_rules.deep_view() =~= prev.push(item.deep_view()));
        }
        b
    }

    /// Maps the config alias `alias` to the config `name`.
    pub fn add_config(self, alias: &str, name: &str) -> (r: Self)
        ensures
            r.configs.deep_view() == self.configs.deep_view().push((alias@, name@)),
            r == (WorkloadBuilder { configs: r.configs, ..self }),
    {
        let mut b = self;
        let ghost prev = b.configs.deep_view();
        let item = (alias.to_owned(), name.to_owned());
        b.configs.push(item);
        proof {
            assert(b.configs.deep_view() =~= prev.push(item.deep_view()));
        }
        b
    }

    /// Builds the workload; see [`build_outcome`] for what comes back.
    #[verifier::spinoff_prover]
    #[verifier::rlimit(50)]
    pub fn build(self) -> (r: Result<Workload, AnkaiosError>)
        requires
            reaches_tags(self) ==> tags_complete(self.tags@),
        ensures
            build_outcome(self, r),
    {
        let ghost b = self;
        if self.wl_name.as_str().unicode_len() == 0 {
            return Err(
                AnkaiosError::WorkloadBuilderError(
                    "Workload can not be built without a name.".to_owned(),
                ),
            );
        }
        let mut wl = Workload::new_from_builder(self.wl_name.as_str());
        if self.wl_agent_name.as_str().unicode_len() == 0 {
            return Err(
                AnkaiosError::WorkloadBuilderError(
                    "Workload can not be built without an agent name.".to_owned(),
                ),
            );
        }
        if self.wl_runtime.as_str().unicode_len() == 0 {
            return Err(
                AnkaiosError::WorkloadBuilderError(
                    "Workload can not be built without a runtime.".to_owned(),
                ),
            );
        }
        if self.wl_runtime_config.as_str().unicode_len() == 0 {
            return Err(
                AnkaiosError::WorkloadBuilderError(
                    "Workload can not be built without a runtime config.".to_owned(),
                ),
            );
        }
        let ghost main = wl.main_mask@;
        proof {
            lemma_only_main_mask(main);
        }
        wl.update_agent_name(self.wl_agent_name.as_str());
        wl.update_runtime(self.wl_runtime.as_str());
        wl.update_runtime_config(self.wl_runtime_config.as_str());
        if let Some(p) = &self.wl_restart_policy {
            match wl.update_restart_policy(p.as_str()) {
                Ok(()) => {},
                Err(e) => {
                    return Err(e);
                },
            }
        }
        if self.dependencies.len() > 0 {
            match wl.update_dependencies(self.dependencies) {
                Ok(()) => {},
                Err(e) => {
                    proof {
                        let k = choose|k: int|
                            0 <= k < b.dependencies@.len() && conditions_valid(
                                b.dependencies.deep_view().take(k),
                            ) && add_condition_code(b.dependencies@[k].1@) is None
                                && is_field_error(
                                e,
                                "dependency condition"@,
                                b.dependencies@[k].1@,
                            );
                        assert(b.dependencies.deep_view()[k].1 == b.dependencies@[k].1@);
                        assert(first_bad_condition(b.dependencies.deep_view(), k));
                    }
                    return Err(e);
                },
            }
        }
        if self.tags.len() > 0 {
            proof {
                assert(b.dependencies@.len() == 0 ==> conditions_valid(b.dependencies.deep_view()));
                assert(reaches_tags(b));
            }
            wl.update_tags(&self.tags);
        }
        if self.allow_rules.len() > 0 {
            match wl.update_allow_rules(self.allow_rules) {
                Ok(()) => {},
                Err(e) => {
                    proof {
                        let k = choose|k: int|
                            0 <= k < b.allow_rules@.len() && operations_valid(
                                b.allow_rules.deep_view().take(k),
                            ) && operation_code(b.allow_rules@[k].0@) is None && is_field_error(
                                e,
                                "operation"@,
                                b.allow_rules@[k].0@,
                            );
                        assert(b.allow_rules.deep_view()[k].0 == b.allow_rules@[k].0@);
                        assert(first_bad_operation(b.allow_rules.deep_view(), k));
                    }
                    return Err(e);
                },
            }
        }
        if self.deny_rules.len() > 0 {
            match wl.update_deny_rules(self.deny_rules) {
                Ok(()) => {},
                Err(e) => {
                    proof {
                        let k = choose|k: int|
                            0 <= k < b.deny_rules@.len() && operations_valid(
                                b.deny_rules.deep_view().take(k),
                            ) && operation_code(b.deny_rules@[k].0@) is None && is_field_error(
                                e,
                                "operation"@,
                                b.deny_rules@[k].0@,
                            );
                        assert(b.deny_rules.deep_view()[k].0 == b.deny_rules@[k].0@);
                        assert(first_bad_operation(b.deny_rules.deep_view(), k));
                    }
                    return Err(e);
                },
            }
        }
        if self.configs.len() > 0 {
            wl.update_configs(self.configs);
        }
        proof {
            assert(b.dependencies@.len() == 0 ==> conditions_valid(b.dependencies.deep_view()));
            assert(b.allow_rules@.len() == 0 ==> operations_valid(b.allow_rules.deep_view()));
            assert(b.deny_rules@.len() == 0 ==> operations_valid(b.deny_rules.deep_view()));
            if b.allow_rules@.len() == 0 {
                assert(rules_as_codes(b.allow_rules.deep_view()) =~= Seq::<
                    Option<(i32, Seq<Seq<char>>)>,
                >::empty());
            }
            if b.deny_rules@.len() == 0 {
                assert(rules_as_codes(b.deny_rules.deep_view()) =~= Seq::<
                    Option<(i32, Seq<Seq<char>>)>,
                >::empty());
            }
        }
        Ok(wl)
    }
}

impl Workload {
    /// A builder of workloads.
    pub fn builder() -> (r: WorkloadBuilder)
        ensures
            r.wl_name@ == Seq::<char>::empty(),
            r.wl_agent_name@ == Seq::<char>::empty(),
            r.wl_runtime@ == Seq::<char>::empty(),
            r.wl_runtime_config@ == Seq::<char>::empty(),
            r.wl_restart_policy is None,
            r.dependencies@.len() == 0,
            r.tags@.len() == 0,
            r.allow_rules@.len() == 0,
            r.deny_rules@.len() == 0,
            r.configs@.len() == 0,
    {
        WorkloadBuilder::new()
    }
}

} // verus!
