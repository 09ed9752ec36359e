//! Reading a workload back from its mapping form.

use vstd::prelude::*;
use crate::ank_base;
use crate::keyed::{KeyedList, keys_unique, has_key, entries_map, lemma_push_map};
use crate::laws::{law_condition_names, law_operation_names, law_restart_policy_names};
use crate::workload::{
    entry_if, workload_dict, restart_policy_name, dependencies_dict, tags_dict, access_dict,
    configs_dict, add_condition_code, add_condition_name, conditions_valid, condition_codes,
    named_conditions, pairs_map, text_map, masks_yaml, rule_dicts, rules_as_codes, operations_valid,
    operation_code, tag_dict, tags_from_lists,
};
use crate::workload_dict::{
    rule_shaped, rule_text, tag_shaped, tag_text, yaml_text, text_pairs, builder_from_dict,
    workload_dict_shaped,
};
use crate::workload::{Workload, restart_policy_code, restart_policy_valid, dependency_codes_valid,
    tag_lists, workload_tags, workload_mask, configs_view, allow_rules_of, deny_rules_of, named_rules, rule_codes_valid,
};
use crate::laws::{law_tags_read_back, law_rules_read_back};
use crate::workload_builder::{WorkloadBuilder, build_succeeds, built_workload, build_outcome, tags_complete,
    names_distinct, lemma_put_dependencies_distinct,
};
use crate::errors::AnkaiosError;
use crate::keyed::lemma_index_of_key;
use crate::yaml::{YamlView, ystr, yaml_get, yaml_field};

verus! {

proof fn lemma_get_concat(a: Seq<(YamlView, YamlView)>, b: Seq<(YamlView, YamlView)>, k: YamlView)
    ensures
        yaml_get(a + b, k) == if yaml_get(a, k) is Some {
            yaml_get(a, k)
        } else {
            yaml_get(b, k)
        },
    decreases a.len(),
{
    if a.len() == 0 {
        assert(a + b =~= b);
    } else {
        assert((a + b)[0] == a[0]);
        assert((a + b).drop_first() =~= a.drop_first() + b);
        lemma_get_concat(a.drop_first(), b, k);
    }
}

proof fn lemma_get_entry_if(p: bool, e: (YamlView, YamlView), k: YamlView)
    ensures
        yaml_get(entry_if(p, e), k) == if p && e.0 == k {
            Some(e.1)
        } else {
            None::<YamlView>
        },
{
    let empty = Seq::<(YamlView, YamlView)>::empty();
    assert(yaml_get(empty, k) is None);
    if p {
        assert(seq![e].len() == 1 && seq![e][0] == e);
        assert(seq![e].drop_first() =~= empty);
    } else {
        assert(entry_if(p, e) == empty);
    }
}

/// The keys of the mapping form of a workload differ from each other.
proof fn lemma_field_keys_distinct()
    ensures
        "agent"@.len() == 5,
        "runtime"@.len() == 7,
        "runtimeConfig"@.len() == 13,
        "restartPolicy"@.len() == 13,
        "dependencies"@.len() == 12,
        "tags"@.len() == 4,
        "controlInterfaceAccess"@.len() == 22,
        "configs"@.len() == 7,
        "runtime"@ != "configs"@,
        "runtimeConfig"@ != "restartPolicy"@,
{
    reveal_strlit("agent");
    reveal_strlit("runtime");
    reveal_strlit("runtimeConfig");
    reveal_strlit("restartPolicy");
    reveal_strlit("dependencies");
    reveal_strlit("tags");
    reveal_strlit("controlInterfaceAccess");
    reveal_strlit("configs");
    assert("runtime"@[0] != "configs"@[0]);
    assert("runtimeConfig"@[1] != "restartPolicy"@[1]);
}

spec fn e1(w: ank_base::Workload) -> Seq<(YamlView, YamlView)> {
    entry_if(w.agent is Some, (ystr("agent"@), ystr(w.agent.unwrap()@)))
}

spec fn e2(w: ank_base::Workload) -> Seq<(YamlView, YamlView)> {
    entry_if(w.runtime is Some, (ystr("runtime"@), ystr(w.runtime.unwrap()@)))
}

spec fn e3(w: ank_base::Workload) -> Seq<(YamlView, YamlView)> {
    entry_if(w.runtime_config is Some, (ystr("runtimeConfig"@), ystr(w.runtime_config.unwrap()@)))
}

spec fn e4(w: ank_base::Workload) -> Seq<(YamlView, YamlView)> {
    entry_if(
        w.restart_policy is Some,
        (ystr("restartPolicy"@), ystr(restart_policy_name(w.restart_policy.unwrap()).unwrap())),
    )
}

spec fn e5(w: ank_base::Workload) -> Seq<(YamlView, YamlView)> {
    entry_if(
        w.dependencies is Some,
        (ystr("dependencies"@), dependencies_dict(w.dependencies.unwrap().entries@)),
    )
}

spec fn e6(w: ank_base::Workload) -> Seq<(YamlView, YamlView)> {
    entry_if(w.tags is Some, (ystr("tags"@), tags_dict(w.tags.unwrap()@)))
}

spec fn e7(w: ank_base::Workload) -> Seq<(YamlView, YamlView)> {
    entry_if(
        w.control_interface_access is Some,
        (
            ystr("controlInterfaceAccess"@),
            access_dict(
                w.control_interface_access.unwrap().allow_rules.deep_view(),
                w.control_interface_access.unwrap().deny_rules.deep_view(),
            ),
        ),
    )
}

spec fn e8(w: ank_base::Workload) -> Seq<(YamlView, YamlView)> {
    entry_if(w.configs is Some, (ystr("configs"@), configs_dict(w.configs.unwrap().entries@)))
}

/// The value under `k` in the mapping form of `w`: that of the first of its
/// entries with the key `k`.
proof fn lemma_get_chain(w: ank_base::Workload, k: YamlView)
    ensures
        yaml_get(workload_dict(w)->Mapping_0, k) == if yaml_get(e1(w), k) is Some {
            yaml_get(e1(w), k)
        } else if yaml_get(e2(w), k) is Some {
            yaml_get(e2(w), k)
        } else if yaml_get(e3(w), k) is Some {
            yaml_get(e3(w), k)
        } else if yaml_get(e4(w), k) is Some {
            yaml_get(e4(w), k)
        } else if yaml_get(e5(w), k) is Some {
            yaml_get(e5(w), k)
        } else if yaml_get(e6(w), k) is Some {
            yaml_get(e6(w), k)
        } else if yaml_get(e7(w), k) is Some {
            yaml_get(e7(w), k)
        } else {
            yaml_get(e8(w), k)
        },
{
    let d = workload_dict(w)->Mapping_0;
    let p2 = e1(w) + e2(w);
    let p3 = p2 + e3(w);
    let p4 = p3 + e4(w);
    let p5 = p4 + e5(w);
    let p6 = p5 + e6(w);
    let p7 = p6 + e7(w);
    assert(d == p7 + e8(w));
    lemma_get_concat(p7, e8(w), k);
    lemma_get_concat(p6, e7(w), k);
    lemma_get_concat(p5, e6(w), k);
    lemma_get_concat(p4, e5(w), k);
    lemma_get_concat(p3, e4(w), k);
    lemma_get_concat(p2, e3(w), k);
    lemma_get_concat(e1(w), e2(w), k);
}

/// What the entry of a field gives under `k`.
proof fn lemma_entries_at(w: ank_base::Workload, k: YamlView)
    ensures
        yaml_get(e1(w), k) == if w.agent is Some && ystr("agent"@) == k {
            Some(ystr(w.agent.unwrap()@))
        } else {
            None
        },
        yaml_get(e2(w), k) == if w.runtime is Some && ystr("runtime"@) == k {
            Some(ystr(w.runtime.unwrap()@))
        } else {
            None
        },
        yaml_get(e3(w), k) == if w.runtime_config is Some && ystr("runtimeConfig"@) == k {
            Some(ystr(w.runtime_config.unwrap()@))
        } else {
            None
        },
        yaml_get(e4(w), k) == if w.restart_policy is Some && ystr("restartPolicy"@) == k {
            Some(ystr(restart_policy_name(w.restart_policy.unwrap()).unwrap()))
        } else {
            None
        },
        yaml_get(e5(w), k) == if w.dependencies is Some && ystr("dependencies"@) == k {
            Some(dependencies_dict(w.dependencies.unwrap().entries@))
        } else {
            None
        },
        yaml_get(e6(w), k) == if w.tags is Some && ystr("tags"@) == k {
            Some(tags_dict(w.tags.unwrap()@))
        } else {
            None
        },
        yaml_get(e7(w), k) == if w.control_interface_access is Some && ystr(
            "controlInterfaceAccess"@,
        ) == k {
            Some(
                access_dict(
                    w.control_interface_access.unwrap().allow_rules.deep_view(),
                    w.control_interface_access.unwrap().deny_rules.deep_view(),
                ),
            )
        } else {
            None
        },
        yaml_get(e8(w), k) == if w.configs is Some && ystr("configs"@) == k {
            Some(configs_dict(w.configs.unwrap().entries@))
        } else {
            None
        },
{
    lemma_get_entry_if(w.agent is Some, (ystr("agent"@), ystr(w.agent.unwrap()@)), k);
    lemma_get_entry_if(w.runtime is Some, (ystr("runtime"@), ystr(w.runtime.unwrap()@)), k);
    lemma_get_entry_if(
        w.runtime_config is Some,
        (ystr("runtimeConfig"@), ystr(w.runtime_config.unwrap()@)),
        k,
    );
    lemma_get_entry_if(
        w.restart_policy is Some,
        (ystr("restartPolicy"@), ystr(restart_policy_name(w.restart_policy.unwrap()).unwrap())),
        k,
    );
    lemma_get_entry_if(
        w.dependencies is Some,
        (ystr("dependencies"@), dependencies_dict(w.dependencies.unwrap().entries@)),
        k,
    );
    lemma_get_entry_if(w.tags is Some, (ystr("tags"@), tags_dict(w.tags.unwrap()@)), k);
    lemma_get_entry_if(
        w.control_interface_access is Some,
        (
            ystr("controlInterfaceAccess"@),
            access_dict(
                w.control_interface_access.unwrap().allow_rules.deep_view(),
                w.control_interface_access.unwrap().deny_rules.deep_view(),
            ),
        ),
        k,
    );
    lemma_get_entry_if(
        w.configs is Some,
        (ystr("configs"@), configs_dict(w.configs.unwrap().entries@)),
        k,
    );
}

/// The value under the name of a field in the mapping form of `w` is the
/// form of that field, if it is set.
proof fn lemma_dict_fields(w: ank_base::Workload)
    ensures
        yaml_get(workload_dict(w)->Mapping_0, ystr("agent"@)) == yaml_get(e1(w), ystr("agent"@)),
        yaml_get(workload_dict(w)->Mapping_0, ystr("runtime"@)) == yaml_get(e2(w), ystr("runtime"@)),
        yaml_get(workload_dict(w)->Mapping_0, ystr("runtimeConfig"@)) == yaml_get(
            e3(w),
            ystr("runtimeConfig"@),
        ),
        yaml_get(workload_dict(w)->Mapping_0, ystr("restartPolicy"@)) == yaml_get(
            e4(w),
            ystr("restartPolicy"@),
        ),
        yaml_get(workload_dict(w)->Mapping_0, ystr("dependencies"@)) == yaml_get(
            e5(w),
            ystr("dependencies"@),
        ),
        yaml_get(workload_dict(w)->Mapping_0, ystr("tags"@)) == yaml_get(e6(w), ystr("tags"@)),
        yaml_get(workload_dict(w)->Mapping_0, ystr("controlInterfaceAccess"@)) == yaml_get(
            e7(w),
            ystr("controlInterfaceAccess"@),
        ),
        yaml_get(workload_dict(w)->Mapping_0, ystr("configs"@)) == yaml_get(e8(w), ystr("configs"@)),
{
    lemma_field_keys_distinct();
    let keys = seq![
        ystr("agent"@),
        ystr("runtime"@),
        ystr("runtimeConfig"@),
        ystr("restartPolicy"@),
        ystr("dependencies"@),
        ystr("tags"@),
        ystr("controlInterfaceAccess"@),
        ystr("configs"@),
    ];
    assert forall|i: int| 0 <= i < 8 implies {
        &&& #[trigger] yaml_get(workload_dict(w)->Mapping_0, keys[i]) == if yaml_get(e1(w), keys[i]) is Some {
            yaml_get(e1(w), keys[i])
        } else if yaml_get(e2(w), keys[i]) is Some {
            yaml_get(e2(w), keys[i])
        } else if yaml_get(e3(w), keys[i]) is Some {
            yaml_get(e3(w), keys[i])
        } else if yaml_get(e4(w), keys[i]) is Some {
            yaml_get(e4(w), keys[i])
        } else if yaml_get(e5(w), keys[i]) is Some {
            yaml_get(e5(w), keys[i])
        } else if yaml_get(e6(w), keys[i]) is Some {
            yaml_get(e6(w), keys[i])
        } else if yaml_get(e7(w), keys[i]) is Some {
            yaml_get(e7(w), keys[i])
        } else {
            yaml_get(e8(w), keys[i])
        }
    } by {
        lemma_get_chain(w, keys[i]);
    }
    lemma_entries_at(w, keys[0]);
    lemma_entries_at(w, keys[1]);
    lemma_entries_at(w, keys[2]);
    lemma_entries_at(w, keys[3]);
    lemma_entries_at(w, keys[4]);
    lemma_entries_at(w, keys[5]);
    lemma_entries_at(w, keys[6]);
    lemma_entries_at(w, keys[7]);
}

/// Dropping the last entry of a list without repeated keys.
proof fn lemma_drop_last_map<V>(s: Seq<(String, V)>)
    requires
        keys_unique(s),
        s.len() > 0,
    ensures
        keys_unique(s.drop_last()),
        entries_map(s) == entries_map(s.drop_last()).insert(s.last().0@, s.last().1),
{
    let t = s.drop_last();
    assert(t.push(s.last()) =~= s);
    assert(keys_unique(t));
    assert(!has_key(t, s.last().0@)) by {
        if has_key(t, s.last().0@) {
            let i = choose|i: int| 0 <= i < t.len() && t[i].0@ == s.last().0@;
            assert(s[i].0@ == s[s.len() - 1].0@);
        }
    }
    lemma_push_map(t, s.last().0, s.last().1);
}

/// The dependencies read back from their condition names are the
/// dependencies.
proof fn lemma_conditions_read_back(s: Seq<(String, i32)>)
    requires
        keys_unique(s),
        forall|i: int| 0 <= i < s.len() ==> (#[trigger] add_condition_name(s[i].1)) is Some,
    ensures
        conditions_valid(named_conditions(s)),
        condition_codes(named_conditions(s)) == entries_map(s),
    decreases s.len(),
{
    let ns = named_conditions(s);
    assert forall|i: int| 0 <= i < ns.len() implies (#[trigger] add_condition_code(ns[i].1)) is Some by {
        law_condition_names(Seq::empty(), s[i].1);
    }
    if s.len() == 0 {
        assert(entries_map(s) =~= Map::empty());
    } else {
        let t = s.drop_last();
        lemma_drop_last_map(s);
        assert forall|i: int| 0 <= i < t.len() implies (#[trigger] add_condition_name(t[i].1)) is Some by {
            assert(t[i] == s[i]);
        }
        lemma_conditions_read_back(t);
        assert(ns.drop_last() =~= named_conditions(t));
        let c = s.last().1;
        assert(add_condition_name(c) is Some) by {
            assert(s[s.len() - 1] == s.last());
        }
        law_condition_names(Seq::empty(), c);
    }
}

/// Every code in the condition codes of valid condition names has a name,
/// and a name given last is among them.
proof fn lemma_condition_codes_named(deps: Seq<(Seq<char>, Seq<char>)>)
    requires
        conditions_valid(deps),
    ensures
        forall|k: Seq<char>|
            #[trigger] condition_codes(deps).contains_key(k) ==> add_condition_name(
                condition_codes(deps)[k],
            ) is Some,
        deps.len() > 0 ==> condition_codes(deps).contains_key(deps.last().0),
    decreases deps.len(),
{
    if deps.len() > 0 {
        let t = deps.drop_last();
        assert(conditions_valid(t)) by {
            assert forall|i: int| 0 <= i < t.len() implies (#[trigger] add_condition_code(t[i].1)) is Some by {
                assert(t[i] == deps[i]);
            }
        }
        lemma_condition_codes_named(t);
        assert(add_condition_code(deps.last().1) is Some) by {
            assert(deps[deps.len() - 1] == deps.last());
        }
        law_condition_names(deps.last().1, 0);
    }
}

/// The config aliases read back from their text are the config aliases.
proof fn lemma_pairs_read_back(s: Seq<(String, String)>)
    requires
        keys_unique(s),
    ensures
        pairs_map(Seq::new(s.len(), |i: int| (s[i].0@, s[i].1@))) == text_map(entries_map(s)),
    decreases s.len(),
{
    let ps = Seq::new(s.len(), |i: int| (s[i].0@, s[i].1@));
    if s.len() == 0 {
        assert(text_map(entries_map(s)) =~= Map::empty());
    } else {
        let t = s.drop_last();
        lemma_drop_last_map(s);
        lemma_pairs_read_back(t);
        assert(ps.drop_last() =~= Seq::new(t.len(), |i: int| (t[i].0@, t[i].1@)));
        assert(text_map(entries_map(s)) =~= text_map(entries_map(t)).insert(
            s.last().0@,
            s.last().1@,
        ));
    }
}

/// A name given last is among the keys of a map of pairs.
proof fn lemma_pairs_map_last(ps: Seq<(Seq<char>, Seq<char>)>)
    requires
        ps.len() > 0,
    ensures
        pairs_map(ps).contains_key(ps.last().0),
{
}

proof fn lemma_get2(a: (YamlView, YamlView), b: (YamlView, YamlView), k: YamlView)
    ensures
        yaml_get(seq![a, b], k) == if a.0 == k {
            Some(a.1)
        } else if b.0 == k {
            Some(b.1)
        } else {
            None
        },
{
    assert(seq![a, b][0] == a);
    assert(seq![a, b].drop_first() =~= seq![b]);
    lemma_get_entry_if(true, b, k);
    assert(entry_if(true, b) == seq![b]);
}

proof fn lemma_get3(a: (YamlView, YamlView), b: (YamlView, YamlView), c: (YamlView, YamlView), k: YamlView)
    ensures
        yaml_get(seq![a, b, c], k) == if a.0 == k {
            Some(a.1)
        } else if b.0 == k {
            Some(b.1)
        } else if c.0 == k {
            Some(c.1)
        } else {
            None
        },
{
    assert(seq![a, b, c][0] == a);
    assert(seq![a, b, c].drop_first() =~= seq![b, c]);
    lemma_get2(b, c, k);
}

/// The mapping form of an access rule on the state.
spec fn rule_dict_of(op: Seq<char>, masks: Seq<Seq<char>>) -> YamlView {
    YamlView::Mapping(
        seq![
            (ystr("type"@), ystr("StateRule"@)),
            (ystr("operation"@), ystr(op)),
            (ystr("filterMask"@), masks_yaml(masks)),
        ],
    )
}

/// Rules with known operations are written one mapping each.
proof fn lemma_rule_dicts_of(rules: Seq<(Seq<char>, Seq<Seq<char>>)>)
    requires
        operations_valid(rules),
    ensures
        rule_dicts(rules_as_codes(rules)) == Seq::new(
            rules.len(),
            |i: int| rule_dict_of(rules[i].0, rules[i].1),
        ),
    decreases rules.len(),
{
    if rules.len() == 0 {
        assert(rules_as_codes(rules) =~= Seq::<Option<(i32, Seq<Seq<char>>)>>::empty());
    } else {
        let t = rules.drop_last();
        assert(operations_valid(t)) by {
            assert forall|i: int| 0 <= i < t.len() implies (#[trigger] operation_code(t[i].0)) is Some by {
                assert(t[i] == rules[i]);
            }
        }
        lemma_rule_dicts_of(t);
        assert(rules_as_codes(rules).drop_last() =~= rules_as_codes(t));
        let last = rules.last();
        assert(operation_code(last.0) is Some) by {
            assert(rules[rules.len() - 1] == last);
        }
        law_operation_names(last.0, 0);
        assert(rules_as_codes(rules).last() == Some((operation_code(last.0).unwrap(), last.1)));
        assert(rule_dicts(rules_as_codes(rules)) =~= Seq::new(
            rules.len(),
            |i: int| rule_dict_of(rules[i].0, rules[i].1),
        ));
    }
}

proof fn lemma_rule_keys_distinct()
    ensures
        ystr("type"@) != ystr("operation"@),
        ystr("type"@) != ystr("filterMask"@),
        ystr("operation"@) != ystr("filterMask"@),
        ystr("allowRules"@) != ystr("denyRules"@),
        ystr("key"@) != ystr("value"@),
{
    reveal_strlit("type");
    reveal_strlit("operation");
    reveal_strlit("filterMask");
    reveal_strlit("allowRules");
    reveal_strlit("denyRules");
    reveal_strlit("key");
    reveal_strlit("value");
    assert("type"@.len() == 4 && "operation"@.len() == 9 && "filterMask"@.len() == 10);
    assert("allowRules"@.len() == 10 && "denyRules"@.len() == 9);
    assert("key"@.len() == 3 && "value"@.len() == 5);
}

/// The mapping form of an access rule on the state has the shape of a rule
/// and reads back as that rule.
proof fn lemma_rule_read_back(op: Seq<char>, masks: Seq<Seq<char>>)
    ensures
        rule_shaped(rule_dict_of(op, masks)),
        rule_text(rule_dict_of(op, masks)) == (op, masks),
{
    lemma_rule_keys_distinct();
    let t = (ystr("type"@), ystr("StateRule"@));
    let o = (ystr("operation"@), ystr(op));
    let f = (ystr("filterMask"@), masks_yaml(masks));
    lemma_get3(t, o, f, ystr("operation"@));
    lemma_get3(t, o, f, ystr("filterMask"@));
    let ms = Seq::new(masks.len(), |i: int| ystr(masks[i]));
    assert(Seq::new(ms.len(), |j: int| yaml_text(ms[j])) =~= masks);
}

/// The rules under `key` of the mapping form of an access.
proof fn lemma_access_rules(
    allow: Seq<Option<(i32, Seq<Seq<char>>)>>,
    deny: Seq<Option<(i32, Seq<Seq<char>>)>>,
)
    ensures
        yaml_field(access_dict(allow, deny), ystr("allowRules"@)) == if rule_dicts(allow).len() > 0 {
            Some(YamlView::Sequence(rule_dicts(allow)))
        } else {
            None
        },
        yaml_field(access_dict(allow, deny), ystr("denyRules"@)) == if rule_dicts(deny).len() > 0 {
            Some(YamlView::Sequence(rule_dicts(deny)))
        } else {
            None
        },
{
    lemma_rule_keys_distinct();
    let a = entry_if(
        rule_dicts(allow).len() > 0,
        (ystr("allowRules"@), YamlView::Sequence(rule_dicts(allow))),
    );
    let d = entry_if(
        rule_dicts(deny).len() > 0,
        (ystr("denyRules"@), YamlView::Sequence(rule_dicts(deny))),
    );
    lemma_get_concat(a, d, ystr("allowRules"@));
    lemma_get_concat(a, d, ystr("denyRules"@));
    lemma_get_entry_if(
        rule_dicts(allow).len() > 0,
        (ystr("allowRules"@), YamlView::Sequence(rule_dicts(allow))),
        ystr("allowRules"@),
    );
    lemma_get_entry_if(
        rule_dicts(allow).len() > 0,
        (ystr("allowRules"@), YamlView::Sequence(rule_dicts(allow))),
        ystr("denyRules"@),
    );
    lemma_get_entry_if(
        rule_dicts(deny).len() > 0,
        (ystr("denyRules"@), YamlView::Sequence(rule_dicts(deny))),
        ystr("allowRules"@),
    );
    lemma_get_entry_if(
        rule_dicts(deny).len() > 0,
        (ystr("denyRules"@), YamlView::Sequence(rule_dicts(deny))),
        ystr("denyRules"@),
    );
}

/// The mapping form of a tag has the shape of a tag and reads back as that
/// tag.
proof fn lemma_tag_read_back(t: ank_base::Tag)
    ensures
        tag_shaped(tag_dict(t)),
        tag_text(tag_dict(t)) == seq![t.key@, t.value@],
{
    lemma_rule_keys_distinct();
    let k = (ystr("key"@), ystr(t.key@));
    let v = (ystr("value"@), ystr(t.value@));
    lemma_get2(k, v, ystr("key"@));
    lemma_get2(k, v, ystr("value"@));
}

/// Two workloads in the protocol form are the same as the protocol carries
/// them: the same fields, with the dependencies and the config aliases
/// compared as maps.
pub open spec fn same_proto(a: ank_base::Workload, b: ank_base::Workload) -> bool {
    &&& a.agent.deep_view() == b.agent.deep_view()
    &&& a.runtime.deep_view() == b.runtime.deep_view()
    &&& a.runtime_config.deep_view() == b.runtime_config.deep_view()
    &&& a.restart_policy == b.restart_policy
    &&& match (a.dependencies, b.dependencies) {
        (Some(x), Some(y)) => x.map() == y.map(),
        (None, None) => true,
        _ => false,
    }
    &&& a.tags.deep_view() == b.tags.deep_view()
    &&& a.control_interface_access.deep_view() == b.control_interface_access.deep_view()
    &&& match (a.configs, b.configs) {
        (Some(x), Some(y)) => text_map(x.map()) == text_map(y.map()),
        (None, None) => true,
        _ => false,
    }
}

/// A workload that the builder built has a mapping form that can be
/// written and read: its restart policy and dependency conditions have
/// names, and the mapping has the shape that `Workload::new_from_dict`
/// needs.
pub proof fn law_built_workload_dict_shaped(b0: WorkloadBuilder, w: Workload)
    requires
        build_succeeds(b0),
        built_workload(b0, w),
    ensures
        restart_policy_valid(w.workload),
        dependency_codes_valid(w.workload),
        workload_dict_shaped(workload_dict(w.workload)->Mapping_0),
{
    let wl = w.workload;
    let d = workload_dict(wl)->Mapping_0;
    lemma_dict_fields(wl);
    lemma_field_keys_distinct();
    lemma_entries_at(wl, ystr("agent"@));
    lemma_entries_at(wl, ystr("runtime"@));
    lemma_entries_at(wl, ystr("runtimeConfig"@));
    lemma_entries_at(wl, ystr("restartPolicy"@));
    lemma_entries_at(wl, ystr("dependencies"@));
    lemma_entries_at(wl, ystr("tags"@));
    lemma_entries_at(wl, ystr("controlInterfaceAccess"@));
    lemma_entries_at(wl, ystr("configs"@));
    // The restart policy.
    match b0.wl_restart_policy {
        Some(p) => {
            law_restart_policy_names(p@, 0);
            let c = restart_policy_code(p@).unwrap();
            law_restart_policy_names(Seq::empty(), c);
        },
        None => {},
    }
    // The dependencies.
    match wl.dependencies {
        Some(dd) => {
            let bd = b0.dependencies.deep_view();
            lemma_condition_codes_named(bd);
            assert forall|i: int| 0 <= i < dd.entries@.len() implies (#[trigger] add_condition_name(
                dd.entries@[i].1,
            )) is Some by {
                lemma_index_of_key(dd.entries@, i);
            }
            lemma_conditions_read_back(dd.entries@);
            assert(text_pairs(dependencies_dict(dd.entries@)->Mapping_0) =~= named_conditions(
                dd.entries@,
            ));
            assert(bd.len() > 0);
            assert(dd.map().contains_key(bd.last().0));
            assert(dd.entries@.len() > 0);
        },
        None => {},
    }
    // The config aliases.
    match wl.configs {
        Some(c) => {
            let bc = b0.configs.deep_view();
            assert(bc.len() > 0);
            lemma_pairs_map_last(bc);
            assert(text_map(c.map()).contains_key(bc.last().0));
            assert(c.entries@.len() > 0);
            lemma_pairs_read_back(c.entries@);
        },
        None => {},
    }
    // The tags.
    match wl.tags {
        Some(t) => {
            let items = tags_dict(t@)->Sequence_0;
            assert forall|i: int| 0 <= i < items.len() implies tag_text(#[trigger] items[i])
                == seq![t@[i].key@, t@[i].value@] && tag_shaped(items[i]) by {
                lemma_tag_read_back(t@[i]);
            }
            assert(t.deep_view().len() == b0.tags.deep_view().len());
        },
        None => {},
    }
    // The access rules.
    match wl.control_interface_access {
        Some(c) => {
            let ra = b0.allow_rules.deep_view();
            let rd = b0.deny_rules.deep_view();
            lemma_access_rules(c.allow_rules.deep_view(), c.deny_rules.deep_view());
            lemma_rule_dicts_of(ra);
            lemma_rule_dicts_of(rd);
            assert forall|i: int| 0 <= i < ra.len() implies rule_text(
                #[trigger] rule_dicts(rules_as_codes(ra))[i],
            ) == ra[i] by {
                lemma_rule_read_back(ra[i].0, ra[i].1);
            }
            assert forall|i: int| 0 <= i < rd.len() implies rule_text(
                #[trigger] rule_dicts(rules_as_codes(rd))[i],
            ) == rd[i] by {
                lemma_rule_read_back(rd[i].0, rd[i].1);
            }
            assert forall|i: int| 0 <= i < ra.len() implies rule_shaped(
                #[trigger] rule_dicts(rules_as_codes(ra))[i],
            ) by {
                lemma_rule_read_back(ra[i].0, ra[i].1);
            }
            assert forall|i: int| 0 <= i < rd.len() implies rule_shaped(
                #[trigger] rule_dicts(rules_as_codes(rd))[i],
            ) by {
                lemma_rule_read_back(rd[i].0, rd[i].1);
            }
        },
        None => {},
    }
}

/// A workload that the builder built, written in its mapping form and read
/// back under its name, builds again, and builds the same workload: the
/// mapping form can be written and has the shape that reading needs, the
/// builder read from it builds, and whatever building it gives is `Ok` with
/// a workload of the same name and the same protocol form.
#[verifier::rlimit(30)]
pub proof fn law_workload_dict_read_back(b0: WorkloadBuilder, w: Workload, b: WorkloadBuilder)
    requires
        build_succeeds(b0),
        built_workload(b0, w),
        builder_from_dict(b, w.name@, workload_dict(w.workload)->Mapping_0),
    ensures
        restart_policy_valid(w.workload),
        dependency_codes_valid(w.workload),
        workload_dict_shaped(workload_dict(w.workload)->Mapping_0),
        build_succeeds(b),
        forall|r: Result<Workload, AnkaiosError>|
            #[trigger] build_outcome(b, r) ==> (r matches Ok(w2) && w2.name@ == w.name@ && same_proto(
                w2.workload,
                w.workload,
            )),
{
    let wl = w.workload;
    let d = workload_dict(wl)->Mapping_0;
    lemma_dict_fields(wl);
    lemma_field_keys_distinct();
    lemma_entries_at(wl, ystr("agent"@));
    lemma_entries_at(wl, ystr("runtime"@));
    lemma_entries_at(wl, ystr("runtimeConfig"@));
    lemma_entries_at(wl, ystr("restartPolicy"@));
    lemma_entries_at(wl, ystr("dependencies"@));
    lemma_entries_at(wl, ystr("tags"@));
    lemma_entries_at(wl, ystr("controlInterfaceAccess"@));
    lemma_entries_at(wl, ystr("configs"@));
    // The restart policy.
    match b0.wl_restart_policy {
        Some(p) => {
            law_restart_policy_names(p@, 0);
            let c = restart_policy_code(p@).unwrap();
            law_restart_policy_names(Seq::empty(), c);
        },
        None => {},
    }
    // The dependencies.
    match wl.dependencies {
        Some(dd) => {
            let bd = b0.dependencies.deep_view();
            lemma_condition_codes_named(bd);
            assert forall|i: int| 0 <= i < dd.entries@.len() implies (#[trigger] add_condition_name(
                dd.entries@[i].1,
            )) is Some by {
                lemma_index_of_key(dd.entries@, i);
            }
            lemma_conditions_read_back(dd.entries@);
            assert(text_pairs(dependencies_dict(dd.entries@)->Mapping_0) =~= named_conditions(
                dd.entries@,
            ));
            assert(bd.len() > 0);
            assert(dd.map().contains_key(bd.last().0));
            assert(dd.entries@.len() > 0);
            assert(names_distinct(named_conditions(dd.entries@))) by {
                let nc = named_conditions(dd.entries@);
                assert forall|i: int, j: int| 0 <= i < nc.len() && 0 <= j < nc.len() && i != j implies nc[i].0
                    != nc[j].0 by {
                    assert(dd.entries@[i].0@ != dd.entries@[j].0@);
                }
            }
            lemma_put_dependencies_distinct(named_conditions(dd.entries@));
            assert(b.dependencies.deep_view() == named_conditions(dd.entries@));
            assert(b.dependencies@.len() > 0);
        },
        None => {
            assert(b.dependencies.deep_view().len() == 0);
        },
    }
    // The config aliases.
    match wl.configs {
        Some(c) => {
            let bc = b0.configs.deep_view();
            assert(bc.len() > 0);
            lemma_pairs_map_last(bc);
            assert(text_map(c.map()).contains_key(bc.last().0));
            assert(c.entries@.len() > 0);
            lemma_pairs_read_back(c.entries@);
            assert(b.configs.deep_view() =~= Seq::new(
                c.entries@.len(),
                |i: int| (c.entries@[i].0@, c.entries@[i].1@),
            ));
            assert(b.configs@.len() > 0);
        },
        None => {
            assert(b.configs.deep_view().len() == 0);
        },
    }
    // The tags.
    match wl.tags {
        Some(t) => {
            let items = tags_dict(t@)->Sequence_0;
            assert forall|i: int| 0 <= i < items.len() implies tag_text(#[trigger] items[i])
                == seq![t@[i].key@, t@[i].value@] && tag_shaped(items[i]) by {
                lemma_tag_read_back(t@[i]);
            }
            assert(b.tags.deep_view().len() == t@.len());
            assert(t.deep_view().len() == b0.tags.deep_view().len());
            assert(b.tags@.len() > 0);
            assert(tags_from_lists(b.tags.deep_view()) =~= t.deep_view());
        },
        None => {
            assert(b.tags.deep_view().len() == 0);
        },
    }
    // The access rules.
    match wl.control_interface_access {
        Some(c) => {
            let ra = b0.allow_rules.deep_view();
            let rd = b0.deny_rules.deep_view();
            lemma_access_rules(c.allow_rules.deep_view(), c.deny_rules.deep_view());
            lemma_rule_dicts_of(ra);
            lemma_rule_dicts_of(rd);
            assert forall|i: int| 0 <= i < ra.len() implies rule_text(
                #[trigger] rule_dicts(rules_as_codes(ra))[i],
            ) == ra[i] by {
                lemma_rule_read_back(ra[i].0, ra[i].1);
            }
            assert forall|i: int| 0 <= i < rd.len() implies rule_text(
                #[trigger] rule_dicts(rules_as_codes(rd))[i],
            ) == rd[i] by {
                lemma_rule_read_back(rd[i].0, rd[i].1);
            }
            assert(b.allow_rules.deep_view() =~= ra);
            assert(b.deny_rules.deep_view() =~= rd);
            assert forall|i: int| 0 <= i < ra.len() implies rule_shaped(
                #[trigger] rule_dicts(rules_as_codes(ra))[i],
            ) by {
                lemma_rule_read_back(ra[i].0, ra[i].1);
            }
            assert forall|i: int| 0 <= i < rd.len() implies rule_shaped(
                #[trigger] rule_dicts(rules_as_codes(rd))[i],
            ) by {
                lemma_rule_read_back(rd[i].0, rd[i].1);
            }
        },
        None => {
            assert(b.allow_rules.deep_view().len() == 0);
            assert(b.deny_rules.deep_view().len() == 0);
            assert(b.allow_rules.deep_view() =~= b0.allow_rules.deep_view());
            assert(b.deny_rules.deep_view() =~= b0.deny_rules.deep_view());
        },
    }
    assert forall|r: Result<Workload, AnkaiosError>| #[trigger] build_outcome(b, r) implies (r matches Ok(
        w2,
    ) && w2.name@ == w.name@ && same_proto(w2.workload, w.workload)) by {
        assert(build_succeeds(b));
        assert(r is Ok);
        assert(built_workload(b, r->Ok_0));
    }
}

/// Reading back the mapping form of a workload that the builder built, as
/// `Workload::new_from_dict` states its result, gives `Ok` with a workload
/// of the same name and the same protocol form.
pub proof fn law_new_from_dict_reads_back(b0: WorkloadBuilder, w: Workload, r: Result<Workload, AnkaiosError>)
    requires
        build_succeeds(b0),
        built_workload(b0, w),
        exists|b: WorkloadBuilder|
            builder_from_dict(b, w.name@, workload_dict(w.workload)->Mapping_0) && build_outcome(b, r),
    ensures
        r matches Ok(w2) && w2.name@ == w.name@ && same_proto(w2.workload, w.workload),
{
    let b = choose|b: WorkloadBuilder|
        builder_from_dict(b, w.name@, workload_dict(w.workload)->Mapping_0) && build_outcome(b, r);
    law_workload_dict_read_back(b0, w, b);
}

/// The config aliases that replaced the config aliases of a workload are
/// read back as the same map of aliases to config names.
pub proof fn law_configs_read_back(configs: Seq<(Seq<char>, Seq<char>)>, c: KeyedList<String>)
    requires
        c.wf(),
        text_map(c.map()) == pairs_map(configs),
    ensures
        pairs_map(c.deep_view()) == pairs_map(configs),
{
    lemma_pairs_read_back(c.entries@);
    assert(c.deep_view() =~= Seq::new(
        c.entries@.len(),
        |i: int| (c.entries@[i].0@, c.entries@[i].1@),
    ));
}

/// The condition codes of valid condition names are the codes of the names
/// that the map of pairs holds.
proof fn lemma_condition_codes_of_pairs(deps: Seq<(Seq<char>, Seq<char>)>)
    requires
        conditions_valid(deps),
    ensures
        condition_codes(deps).dom() == pairs_map(deps).dom(),
        forall|k: Seq<char>|
            #[trigger] condition_codes(deps).contains_key(k) ==> condition_codes(deps)[k]
                == add_condition_code(pairs_map(deps)[k]).unwrap(),
    decreases deps.len(),
{
    if deps.len() > 0 {
        let t = deps.drop_last();
        assert(conditions_valid(t)) by {
            assert forall|i: int| 0 <= i < t.len() implies (#[trigger] add_condition_code(t[i].1)) is Some by {
                assert(t[i] == deps[i]);
            }
        }
        lemma_condition_codes_of_pairs(t);
        assert(condition_codes(deps).dom() =~= pairs_map(deps).dom());
    }
}

/// The names of the dependencies of a workload as a map.
proof fn lemma_named_conditions_map(s: Seq<(String, i32)>)
    requires
        keys_unique(s),
    ensures
        pairs_map(named_conditions(s)).dom() == entries_map(s).dom(),
        forall|k: Seq<char>|
            #[trigger] pairs_map(named_conditions(s)).contains_key(k) ==> pairs_map(
                named_conditions(s),
            )[k] == add_condition_name(entries_map(s)[k]).unwrap(),
    decreases s.len(),
{
    if s.len() == 0 {
        assert(entries_map(s) =~= Map::empty());
        assert(pairs_map(named_conditions(s)) =~= Map::empty());
    } else {
        let t = s.drop_last();
        lemma_drop_last_map(s);
        lemma_named_conditions_map(t);
        assert(named_conditions(s).drop_last() =~= named_conditions(t));
        assert(pairs_map(named_conditions(s)).dom() =~= entries_map(s).dom());
    }
}

/// The dependencies that replaced the dependencies of a workload are read
/// back as the same map of workload names to condition names.
pub proof fn law_dependencies_read_back(deps: Seq<(Seq<char>, Seq<char>)>, d: KeyedList<i32>)
    requires
        conditions_valid(deps),
        d.wf(),
        d.map() == condition_codes(deps),
    ensures
        forall|i: int| 0 <= i < d.entries@.len() ==> (#[trigger] add_condition_name(d.entries@[i].1)) is Some,
        pairs_map(named_conditions(d.entries@)) == pairs_map(deps),
{
    lemma_condition_codes_named(deps);
    assert forall|i: int| 0 <= i < d.entries@.len() implies (#[trigger] add_condition_name(
        d.entries@[i].1,
    )) is Some by {
        lemma_index_of_key(d.entries@, i);
    }
    lemma_condition_codes_of_pairs(deps);
    lemma_named_conditions_map(d.entries@);
    assert forall|k: Seq<char>| #[trigger] pairs_map(deps).contains_key(k) implies pairs_map(
        named_conditions(d.entries@),
    )[k] == pairs_map(deps)[k] by {
        let n = pairs_map(deps)[k];
        assert(condition_codes(deps).contains_key(k));
        assert(add_condition_code(n) is Some) by {
            lemma_pairs_map_value(deps, k);
        }
        law_condition_names(n, 0);
    }
    assert(pairs_map(named_conditions(d.entries@)) =~= pairs_map(deps));
}

/// A value of a map of pairs is the second part of one of the pairs.
proof fn lemma_pairs_map_value(deps: Seq<(Seq<char>, Seq<char>)>, k: Seq<char>)
    requires
        conditions_valid(deps),
        pairs_map(deps).contains_key(k),
    ensures
        add_condition_code(pairs_map(deps)[k]) is Some,
    decreases deps.len(),
{
    let t = deps.drop_last();
    if deps.last().0 == k {
        assert(deps[deps.len() - 1] == deps.last());
    } else {
        assert(conditions_valid(t)) by {
            assert forall|i: int| 0 <= i < t.len() implies (#[trigger] add_condition_code(t[i].1)) is Some by {
                assert(t[i] == deps[i]);
            }
        }
        lemma_pairs_map_value(t, k);
    }
}

/// What the getters of a workload that the builder built give back is what
/// the builder was given: the name, the mask of the whole workload, the
/// agent, the runtime and its configuration, the tags (each a key and a
/// value), the dependencies and the config aliases (as maps: a later entry
/// for a name replaces an earlier one), and the allow and deny rules.
pub proof fn law_builder_read_back(b: WorkloadBuilder, w: Workload)
    requires
        build_succeeds(b),
        built_workload(b, w),
        forall|i: int| 0 <= i < b.tags@.len() ==> (#[trigger] b.tags@[i])@.len() == 2,
    ensures
        w.name@ == b.wl_name@,
        w.mask_view() == seq![workload_mask(b.wl_name@)],
        w.workload.agent.deep_view() == Some(b.wl_agent_name@),
        w.workload.runtime.deep_view() == Some(b.wl_runtime@),
        w.workload.runtime_config.deep_view() == Some(b.wl_runtime_config@),
        dependency_codes_valid(w.workload),
        pairs_map(
            match w.workload.dependencies {
                Some(d) => named_conditions(d.entries@),
                None => Seq::empty(),
            },
        ) == pairs_map(b.dependencies.deep_view()),
        tag_lists(workload_tags(w.workload)) == b.tags.deep_view(),
        pairs_map(configs_view(w.workload)) == pairs_map(b.configs.deep_view()),
        rule_codes_valid(allow_rules_of(w.workload)),
        named_rules(allow_rules_of(w.workload)) == b.allow_rules.deep_view(),
        rule_codes_valid(deny_rules_of(w.workload)),
        named_rules(deny_rules_of(w.workload)) == b.deny_rules.deep_view(),
{
    let wl = w.workload;
    match wl.dependencies {
        Some(d) => {
            law_dependencies_read_back(b.dependencies.deep_view(), d);
        },
        None => {
            assert(b.dependencies.deep_view() =~= Seq::<(Seq<char>, Seq<char>)>::empty());
        },
    }
    match wl.tags {
        Some(t) => {
            let lists = b.tags.deep_view();
            assert forall|i: int| 0 <= i < lists.len() implies (#[trigger] lists[i]).len() == 2 by {
                assert(lists[i] == b.tags@[i].deep_view());
            }
            assert(Seq::new(t@.len(), |i: int| t@[i].deep_view()) =~= t.deep_view());
            law_tags_read_back(lists, t@);
        },
        None => {
            assert(tag_lists(workload_tags(wl)) =~= b.tags.deep_view());
        },
    }
    match wl.configs {
        Some(c) => {
            law_configs_read_back(b.configs.deep_view(), c);
        },
        None => {
            assert(b.configs.deep_view() =~= Seq::<(Seq<char>, Seq<char>)>::empty());
        },
    }
    law_rules_read_back(b.allow_rules.deep_view());
    law_rules_read_back(b.deny_rules.deep_view());
    match wl.control_interface_access {
        Some(c) => {},
        None => {
            assert(b.allow_rules.deep_view() =~= Seq::<(Seq<char>, Seq<Seq<char>>)>::empty());
            assert(b.deny_rules.deep_view() =~= Seq::<(Seq<char>, Seq<Seq<char>>)>::empty());
            assert(named_rules(Seq::empty()) =~= Seq::<(Seq<char>, Seq<Seq<char>>)>::empty());
        },
    }
}

} // verus!
