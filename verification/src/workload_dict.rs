//! Reading a workload from its mapping form, as a manifest writes it.

use vstd::prelude::*;
use crate::errors::AnkaiosError;
use crate::workload::Workload;
use crate::workload_builder::{WorkloadBuilder, build_outcome, tags_complete, put_dependencies};
use crate::yaml::{
    YamlValue, YamlView, ystr, yaml_get, yaml_field, pairs_view, seq_view, mapping_get,
    lemma_pairs_view_index, lemma_seq_view_index, lemma_pairs_view_len, lemma_seq_view_len,
};

verus! {

/// The text of a YAML string (empty for any other value).
pub open spec fn yaml_text(v: YamlView) -> Seq<char> {
    match v {
        YamlView::Str(s) => s,
        _ => Seq::empty(),
    }
}

/// The entries of a mapping (none for any other value or no value).
pub open spec fn mapping_entries(v: Option<YamlView>) -> Seq<(YamlView, YamlView)> {
    match v {
        Some(YamlView::Mapping(es)) => es,
        _ => Seq::empty(),
    }
}

/// The items of a sequence (none for any other value or no value).
pub open spec fn sequence_items(v: Option<YamlView>) -> Seq<YamlView> {
    match v {
        Some(YamlView::Sequence(xs)) => xs,
        _ => Seq::empty(),
    }
}

/// No value, or a string.
pub open spec fn absent_or_text(v: Option<YamlView>) -> bool {
    v matches Some(x) ==> x is Str
}

/// Every key and every value of `es` is a string.
pub open spec fn text_entries(es: Seq<(YamlView, YamlView)>) -> bool {
    forall|i: int| 0 <= i < es.len() ==> (#[trigger] es[i]).0 is Str && es[i].1 is Str
}

/// The entries of a mapping of strings as text pairs.
pub open spec fn text_pairs(es: Seq<(YamlView, YamlView)>) -> Seq<(Seq<char>, Seq<char>)> {
    Seq::new(es.len(), |i: int| (yaml_text(es[i].0), yaml_text(es[i].1)))
}

/// No value, or a mapping of strings to strings.
pub open spec fn absent_or_text_mapping(v: Option<YamlView>) -> bool {
    v matches Some(x) ==> (x matches YamlView::Mapping(es) && text_entries(es))
}

/// A tag in mapping form: a string under `key` and a string under `value`.
pub open spec fn tag_shaped(t: YamlView) -> bool {
    &&& yaml_field(t, ystr("key"@)) matches Some(k) && k is Str
    &&& yaml_field(t, ystr("value"@)) matches Some(v) && v is Str
}

/// The key and the value of a tag in mapping form.
pub open spec fn tag_text(t: YamlView) -> Seq<Seq<char>> {
    seq![
        yaml_text(yaml_field(t, ystr("key"@)).unwrap()),
        yaml_text(yaml_field(t, ystr("value"@)).unwrap()),
    ]
}

/// An access rule in mapping form: a string under `operation` and a sequence
/// of strings under `filterMask`.
pub open spec fn rule_shaped(r: YamlView) -> bool {
    &&& yaml_field(r, ystr("operation"@)) matches Some(op) && op is Str
    &&& yaml_field(r, ystr("filterMask"@)) matches Some(YamlView::Sequence(ms)) && forall|j: int|
        0 <= j < ms.len() ==> (#[trigger] ms[j]) is Str
}

/// The operation and the filter masks of an access rule in mapping form.
pub open spec fn rule_text(r: YamlView) -> (Seq<char>, Seq<Seq<char>>) {
    let ms = sequence_items(yaml_field(r, ystr("filterMask"@)));
    (
        yaml_text(yaml_field(r, ystr("operation"@)).unwrap()),
        Seq::new(ms.len(), |j: int| yaml_text(ms[j])),
    )
}

/// No value, or a sequence of access rules in mapping form.
pub open spec fn absent_or_rules(v: Option<YamlView>) -> bool {
    v matches Some(x) ==> (x matches YamlView::Sequence(rs) && forall|i: int|
        0 <= i < rs.len() ==> rule_shaped(#[trigger] rs[i]))
}

/// The field `key` of the control interface access of the workload `d`.
pub open spec fn access_field(d: Seq<(YamlView, YamlView)>, key: Seq<char>) -> Option<YamlView> {
    match yaml_get(d, ystr("controlInterfaceAccess"@)) {
        Some(c) => yaml_field(c, ystr(key)),
        None => None,
    }
}

/// A workload in mapping form whose fields have the shapes that the manifest
/// format gives them: strings for agent, runtime, runtimeConfig and
/// restartPolicy, mappings of strings for dependencies and configs, a
/// sequence of tags, and sequences of rules in the control interface access.
pub open spec fn workload_dict_shaped(d: Seq<(YamlView, YamlView)>) -> bool {
    &&& absent_or_text(yaml_get(d, ystr("agent"@)))
    &&& absent_or_text(yaml_get(d, ystr("runtime"@)))
    &&& absent_or_text(yaml_get(d, ystr("runtimeConfig"@)))
    &&& absent_or_text(yaml_get(d, ystr("restartPolicy"@)))
    &&& absent_or_text_mapping(yaml_get(d, ystr("dependencies"@)))
    &&& (yaml_get(d, ystr("tags"@)) matches Some(t) ==> (t matches YamlView::Sequence(xs)
        && forall|i: int| 0 <= i < xs.len() ==> tag_shaped(#[trigger] xs[i])))
    &&& absent_or_rules(access_field(d, "allowRules"@))
    &&& absent_or_rules(access_field(d, "denyRules"@))
    &&& absent_or_text_mapping(yaml_get(d, ystr("configs"@)))
}

/// The text of the field `key`, empty when it is missing.
pub open spec fn field_text(d: Seq<(YamlView, YamlView)>, key: Seq<char>) -> Seq<char> {
    match yaml_get(d, ystr(key)) {
        Some(v) => yaml_text(v),
        None => Seq::empty(),
    }
}

/// The builder `b` holds what the workload `d` in mapping form says, under
/// the name `name`.
pub open spec fn builder_from_dict(
    b: WorkloadBuilder,
    name: Seq<char>,
    d: Seq<(YamlView, YamlView)>,
) -> bool {
    let tags = sequence_items(yaml_get(d, ystr("tags"@)));
    let allow = sequence_items(access_field(d, "allowRules"@));
    let deny = sequence_items(access_field(d, "denyRules"@));
    &&& b.wl_name@ == name
    &&& b.wl_agent_name@ == field_text(d, "agent"@)
    &&& b.wl_runtime@ == field_text(d, "runtime"@)
    &&& b.wl_runtime_config@ == field_text(d, "runtimeConfig"@)
    &&& match yaml_get(d, ystr("restartPolicy"@)) {
        Some(v) => b.wl_restart_policy matches Some(p) && p@ == yaml_text(v),
        None => b.wl_restart_policy is None,
    }
    &&& b.dependencies.deep_view() == put_dependencies(
        text_pairs(mapping_entries(yaml_get(d, ystr("dependencies"@)))),
    )
    &&& b.tags.deep_view() == Seq::new(tags.len(), |i: int| tag_text(tags[i]))
    &&& tags_complete(b.tags@)
    &&& b.allow_rules.deep_view() == Seq::new(allow.len(), |i: int| rule_text(allow[i]))
    &&& b.deny_rules.deep_view() == Seq::new(deny.len(), |i: int| rule_text(deny[i]))
    &&& b.configs.deep_view() == text_pairs(mapping_entries(yaml_get(d, ystr("configs"@))))
}

/// The text of a string value that is known to be one.
fn text_of(v: &YamlValue) -> (r: &String)
    requires
        v@ is Str,
    ensures
        v@ == ystr(r@),
{
    match v.as_str() {
        Some(s) => s,
        None => vstd::pervasive::unreached(),
    }
}

/// The filter masks of an access rule in mapping form.
fn rule_masks(items: &Vec<YamlValue>) -> (r: Vec<String>)
    requires
        forall|j: int| 0 <= j < seq_view(items@).len() ==> (#[trigger] seq_view(items@)[j]) is Str,
    ensures
        r.deep_view() == Seq::new(seq_view(items@).len(), |j: int| yaml_text(seq_view(items@)[j])),
{
    proof {
        lemma_seq_view_len(items@);
    }
    let ghost target = Seq::new(seq_view(items@).len(), |j: int| yaml_text(seq_view(items@)[j]));
    let mut out: Vec<String> = Vec::new();
    let mut i: usize = 0;
    while i < items.len()
        invariant
            0 <= i <= items@.len(),
            seq_view(items@).len() == items@.len(),
            forall|j: int|
                0 <= j < seq_view(items@).len() ==> (#[trigger] seq_view(items@)[j]) is Str,
            target == Seq::new(seq_view(items@).len(), |j: int| yaml_text(seq_view(items@)[j])),
            out.deep_view() == target.take(i as int),
        decreases items@.len() - i,
    {
        proof {
            lemma_seq_view_index(items@, i as int);
            assert(seq_view(items@)[i as int] is Str);
        }
        let s = text_of(&items[i]).clone();
        let ghost prev = out.deep_view();
        out.push(s);
        proof {
            assert(out.deep_view() =~= prev.push(s@));
            assert(out.deep_view() =~= target.take(i + 1));
        }
        i = i + 1;
    }
    proof {
        assert(target.take(i as int) =~= target);
    }
    out
}

/// Adds the rules of `rules_value` (a sequence of rules in mapping form) to
/// the builder, as allow rules or as deny rules.
fn add_rules(b: WorkloadBuilder, rules_value: Option<&YamlValue>, allow: bool) -> (r:
    WorkloadBuilder)
    requires
        absent_or_rules(
            match rules_value {
                Some(v) => Some(v@),
                None => None,
            },
        ),
        (if allow {
            b.allow_rules@
        } else {
            b.deny_rules@
        }).len() == 0,
    ensures
        ({
            let rs = sequence_items(
                match rules_value {
                    Some(v) => Some(v@),
                    None => None,
                },
            );
            if allow {
                r == (WorkloadBuilder { allow_rules: r.allow_rules, ..b }) && r.allow_rules.deep_view()
                    == Seq::new(rs.len(), |i: int| rule_text(rs[i]))
            } else {
                r == (WorkloadBuilder { deny_rules: r.deny_rules, ..b }) && r.deny_rules.deep_view()
                    == Seq::new(rs.len(), |i: int| rule_text(rs[i]))
            }
        }),
{
    let mut b = b;
    let ghost b0 = b;
    let items = match rules_value {
        Some(v) => {
            let items = match v.as_sequence() {
                Some(items) => items,
                None => vstd::pervasive::unreached(),
            };
            proof {
                assert(v@ == YamlView::Sequence(seq_view(items@)));
                assert(absent_or_rules(Some(v@)));
                assert forall|k: int| 0 <= k < seq_view(items@).len() implies rule_shaped(
                    #[trigger] seq_view(items@)[k],
                ) by {
                    if let YamlView::Sequence(ys) = v@ {
                        assert(ys == seq_view(items@));
                        assert(rule_shaped(ys[k]));
                    }
                }
            }
            items
        },
        None => {
            proof {
                if allow {
                    assert(b.allow_rules.deep_view() =~= Seq::<(Seq<char>, Seq<Seq<char>>)>::empty());
                } else {
                    assert(b.deny_rules.deep_view() =~= Seq::<(Seq<char>, Seq<Seq<char>>)>::empty());
                }
            }
            return b;
        },
    };
    let ghost rs = seq_view(items@);
    proof {
        lemma_seq_view_len(items@);
    }
    let ghost target = Seq::new(rs.len(), |i: int| rule_text(rs[i]));
    let mut i: usize = 0;
    proof {
        if allow {
            assert(b.allow_rules.deep_view() =~= target.take(0));
        } else {
            assert(b.deny_rules.deep_view() =~= target.take(0));
        }
    }
    while i < items.len()
        invariant
            0 <= i <= items@.len(),
            rs == seq_view(items@),
            rs.len() == items@.len(),
            forall|k: int| 0 <= k < rs.len() ==> rule_shaped(#[trigger] rs[k]),
            target == Seq::new(rs.len(), |k: int| rule_text(rs[k])),
            allow ==> b == (WorkloadBuilder { allow_rules: b.allow_rules, ..b0 })
                && b.allow_rules.deep_view() == target.take(i as int),
            !allow ==> b == (WorkloadBuilder { deny_rules: b.deny_rules, ..b0 })
                && b.deny_rules.deep_view() == target.take(i as int),
        decreases items@.len() - i,
    {
        proof {
            lemma_seq_view_index(items@, i as int);
            assert(rule_shaped(rs[i as int]));
        }
        let rule = &items[i];
        let op = match rule.get("operation") {
            Some(v) => text_of(v),
            None => vstd::pervasive::unreached(),
        };
        let masks = match rule.get("filterMask") {
            Some(v) => match v.as_sequence() {
                Some(ms) => rule_masks(ms),
                None => vstd::pervasive::unreached(),
            },
            None => vstd::pervasive::unreached(),
        };
        proof {
            assert((op@, masks.deep_view()) == rule_text(rs[i as int]));
        }
        if allow {
            b = b.add_allow_rule(op.as_str(), masks);
            proof {
                assert(b.allow_rules.deep_view() =~= target.take(i + 1));
            }
        } else {
            b = b.add_deny_rule(op.as_str(), masks);
            proof {
                assert(b.deny_rules.deep_view() =~= target.take(i + 1));
            }
        }
        i = i + 1;
    }
    proof {
        assert(target.take(i as int) =~= target);
    }
    b
}

/// Adds the entries of a mapping of strings to the builder, as dependencies
/// or as config mappings.
fn add_text_entries(b: WorkloadBuilder, value: Option<&YamlValue>, dependencies: bool) -> (r:
    WorkloadBuilder)
    requires
        absent_or_text_mapping(
            match value {
                Some(v) => Some(v@),
                None => None,
            },
        ),
        (if dependencies {
            b.dependencies@
        } else {
            b.configs@
        }).len() == 0,
    ensures
        ({
            let es = mapping_entries(
                match value {
                    Some(v) => Some(v@),
                    None => None,
                },
            );
            if dependencies {
                r == (WorkloadBuilder { dependencies: r.dependencies, ..b })
                    && r.dependencies.deep_view() == put_dependencies(text_pairs(es))
            } else {
                r == (WorkloadBuilder { configs: r.configs, ..b }) && r.configs.deep_view()
                    == text_pairs(es)
            }
        }),
{
    let mut b = b;
    let ghost b0 = b;
    let entries = match value {
        Some(v) => match v.as_mapping() {
            Some(m) => m,
            None => vstd::pervasive::unreached(),
        },
        None => {
            proof {
                if dependencies {
                    assert(b.dependencies.deep_view() =~= Seq::<(Seq<char>, Seq<char>)>::empty());
                    assert(put_dependencies(text_pairs(Seq::empty())) =~= Seq::<(Seq<char>, Seq<char>)>::empty());
                } else {
                    assert(b.configs.deep_view() =~= Seq::<(Seq<char>, Seq<char>)>::empty());
                }
            }
            return b;
        },
    };
    let ghost es = pairs_view(entries@);
    proof {
        lemma_pairs_view_len(entries@);
    }
    let ghost target = text_pairs(es);
    let mut i: usize = 0;
    proof {
        if dependencies {
            assert(target.take(0) =~= Seq::<(Seq<char>, Seq<char>)>::empty());
            assert(b.dependencies.deep_view() =~= put_dependencies(target.take(0)));
        } else {
            assert(b.configs.deep_view() =~= target.take(0));
        }
    }
    while i < entries.len()
        invariant
            0 <= i <= entries@.len(),
            es == pairs_view(entries@),
            es.len() == entries@.len(),
            text_entries(es),
            target == text_pairs(es),
            dependencies ==> b == (WorkloadBuilder { dependencies: b.dependencies, ..b0 })
                && b.dependencies.deep_view() == put_dependencies(target.take(i as int)),
            !dependencies ==> b == (WorkloadBuilder { configs: b.configs, ..b0 })
                && b.configs.deep_view() == target.take(i as int),
        decreases entries@.len() - i,
    {
        proof {
            lemma_pairs_view_index(entries@, i as int);
            assert(es[i as int].0 is Str && es[i as int].1 is Str);
        }
        let k = text_of(&entries[i].0);
        let v = text_of(&entries[i].1);
        if dependencies {
            b = b.add_dependency(k.as_str(), v.as_str());
            proof {
                assert(target.take(i + 1).drop_last() =~= target.take(i as int));
                assert(target.take(i + 1).last() == target[i as int]);
            }
        } else {
            b = b.add_config(k.as_str(), v.as_str());
            proof {
                assert(b.configs.deep_view() =~= target.take(i + 1));
            }
        }
        i = i + 1;
    }
    proof {
        assert(target.take(i as int) =~= target);
    }
    b
}

/// Adds the tags of `value` (a sequence of tags in mapping form).
fn add_tags(b: WorkloadBuilder, value: Option<&YamlValue>) -> (r: WorkloadBuilder)
    requires
        match value {
            Some(t) => t@ matches YamlView::Sequence(xs) && forall|i: int|
                0 <= i < xs.len() ==> tag_shaped(#[trigger] xs[i]),
            None => true,
        },
        b.tags@.len() == 0,
    ensures
        ({
            let xs = sequence_items(
                match value {
                    Some(v) => Some(v@),
                    None => None,
                },
            );
            r == (WorkloadBuilder { tags: r.tags, ..b }) && r.tags.deep_view() == Seq::new(
                xs.len(),
                |i: int| tag_text(xs[i]),
            ) && tags_complete(r.tags@)
        }),
{
    let mut b = b;
    let ghost b0 = b;
    let items = match value {
        Some(v) => {
            let items = match v.as_sequence() {
                Some(items) => items,
                None => vstd::pervasive::unreached(),
            };
            proof {
                assert(v@ == YamlView::Sequence(seq_view(items@)));
                assert(v@ matches YamlView::Sequence(xs) && forall|i: int|
                    0 <= i < xs.len() ==> tag_shaped(#[trigger] xs[i]));
                assert forall|k: int| 0 <= k < seq_view(items@).len() implies tag_shaped(
                    #[trigger] seq_view(items@)[k],
                ) by {
                    if let YamlView::Sequence(ys) = v@ {
                        assert(ys == seq_view(items@));
                        assert(tag_shaped(ys[k]));
                    }
                }
            }
            items
        },
        None => {
            proof {
                assert(b.tags.deep_view() =~= Seq::<Seq<Seq<char>>>::empty());
            }
            return b;
        },
    };
    let ghost xs = seq_view(items@);
    proof {
        lemma_seq_view_len(items@);
    }
    let ghost target = Seq::new(xs.len(), |i: int| tag_text(xs[i]));
    let mut i: usize = 0;
    proof {
        assert(b.tags.deep_view() =~= target.take(0));
    }
    while i < items.len()
        invariant
            0 <= i <= items@.len(),
            xs == seq_view(items@),
            xs.len() == items@.len(),
            forall|k: int| 0 <= k < xs.len() ==> tag_shaped(#[trigger] xs[k]),
            target == Seq::new(xs.len(), |k: int| tag_text(xs[k])),
            b == (WorkloadBuilder { tags: b.tags, ..b0 }),
            b.tags.deep_view() == target.take(i as int),
            tags_complete(b.tags@),
        decreases items@.len() - i,
    {
        proof {
            lemma_seq_view_index(items@, i as int);
            assert(tag_shaped(xs[i as int]));
        }
        let tag = &items[i];
        let key = match tag.get("key") {
            Some(v) => text_of(v),
            None => vstd::pervasive::unreached(),
        };
        let value = match tag.get("value") {
            Some(v) => text_of(v),
            None => vstd::pervasive::unreached(),
        };
        let ghost prev = b.tags@;
        b = b.add_tag(key.as_str(), value.as_str());
        proof {
            assert(seq![key@, value@] == tag_text(xs[i as int]));
            assert(b.tags.deep_view() =~= target.take(i + 1));
            assert(tags_complete(b.tags@)) by {
                assert forall|j: int| 0 <= j < b.tags@.len() implies (#[trigger] b.tags@[j])@.len()
                    >= 2 by {
                    if j < prev.len() {
                        assert(b.tags@[j] == prev[j]);
                    }
                }
            }
        }
        i = i + 1;
    }
    proof {
        assert(target.take(i as int) =~= target);
    }
    b
}

// ----------------------------------------------------------------------------
// Checking the shape of a workload in mapping form
// ----------------------------------------------------------------------------

/// Whether every key and every value of `es` is a string.
fn all_text_entries(es: &Vec<(YamlValue, YamlValue)>) -> (r: bool)
    ensures
        r == text_entries(pairs_view(es@)),
{
    proof {
        lemma_pairs_view_len(es@);
    }
    let mut i: usize = 0;
    while i < es.len()
        invariant
            pairs_view(es@).len() == es@.len(),
            0 <= i <= es@.len(),
            forall|k: int|
                0 <= k < i ==> (#[trigger] pairs_view(es@)[k]).0 is Str && pairs_view(es@)[k].1 is Str,
        decreases es@.len() - i,
    {
        proof {
            lemma_pairs_view_index(es@, i as int);
        }
        if es[i].0.as_str().is_none() || es[i].1.as_str().is_none() {
            return false;
        }
        i = i + 1;
    }
    true
}

/// Whether the field `key` of `d` is missing or a string.
fn text_or_missing(d: &Vec<(YamlValue, YamlValue)>, key: &str) -> (r: bool)
    ensures
        r == absent_or_text(yaml_get(pairs_view(d@), ystr(key@))),
{
    match mapping_get(d, key) {
        Some(v) => v.as_str().is_some(),
        None => true,
    }
}

/// Whether the field `key` of `d` is missing or a mapping of strings to
/// strings.
fn text_mapping_or_missing(d: &Vec<(YamlValue, YamlValue)>, key: &str) -> (r: bool)
    ensures
        r == absent_or_text_mapping(yaml_get(pairs_view(d@), ystr(key@))),
{
    match mapping_get(d, key) {
        Some(v) => match v.as_mapping() {
            Some(es) => all_text_entries(es),
            None => false,
        },
        None => true,
    }
}

/// Whether `t` is a tag in mapping form.
fn is_tag_shaped(t: &YamlValue) -> (r: bool)
    ensures
        r == tag_shaped(t@),
{
    let key_ok = match t.get("key") {
        Some(k) => k.as_str().is_some(),
        None => false,
    };
    let value_ok = match t.get("value") {
        Some(v) => v.as_str().is_some(),
        None => false,
    };
    key_ok && value_ok
}

/// Whether the tags of `d` are missing or a sequence of tags.
fn tags_or_missing(d: &Vec<(YamlValue, YamlValue)>) -> (r: bool)
    ensures
        r == (yaml_get(pairs_view(d@), ystr("tags"@)) matches Some(t) ==> (t matches YamlView::Sequence(
            xs,
        ) && forall|i: int| 0 <= i < xs.len() ==> tag_shaped(#[trigger] xs[i]))),
{
    match mapping_get(d, "tags") {
        Some(t) => match t.as_sequence() {
            Some(items) => {
                proof {
                    lemma_seq_view_len(items@);
                }
                let mut i: usize = 0;
                while i < items.len()
                    invariant
                        yaml_get(pairs_view(d@), ystr("tags"@)) == Some(t@),
                        t@ == YamlView::Sequence(seq_view(items@)),
                        seq_view(items@).len() == items@.len(),
                        0 <= i <= items@.len(),
                        forall|k: int| 0 <= k < i ==> tag_shaped(#[trigger] seq_view(items@)[k]),
                    decreases items@.len() - i,
                {
                    proof {
                        lemma_seq_view_index(items@, i as int);
                    }
                    if !is_tag_shaped(&items[i]) {
                        proof {
                            let xs = seq_view(items@);
                            let tv = yaml_get(pairs_view(d@), ystr("tags"@)).unwrap();
                            assert(tv->Sequence_0 == xs);
                            assert(!tag_shaped(tv->Sequence_0[i as int]));
                        }
                        return false;
                    }
                    i = i + 1;
                }
                true
            },
            None => false,
        },
        None => true,
    }
}

/// Whether `r` is an access rule in mapping form.
fn is_rule_shaped(r: &YamlValue) -> (b: bool)
    ensures
        b == rule_shaped(r@),
{
    let op_ok = match r.get("operation") {
        Some(op) => op.as_str().is_some(),
        None => false,
    };
    if !op_ok {
        return false;
    }
    match r.get("filterMask") {
        Some(m) => match m.as_sequence() {
            Some(items) => {
                proof {
                    lemma_seq_view_len(items@);
                }
                let mut i: usize = 0;
                while i < items.len()
                    invariant
                        yaml_field(r@, ystr("filterMask"@)) == Some(m@),
                        yaml_field(r@, ystr("operation"@)) matches Some(op) && op is Str,
                        m@ == YamlView::Sequence(seq_view(items@)),
                        seq_view(items@).len() == items@.len(),
                        0 <= i <= items@.len(),
                        forall|k: int| 0 <= k < i ==> (#[trigger] seq_view(items@)[k]) is Str,
                    decreases items@.len() - i,
                {
                    proof {
                        lemma_seq_view_index(items@, i as int);
                    }
                    if items[i].as_str().is_none() {
                        proof {
                            assert(!(seq_view(items@)[i as int] is Str));
                        }
                        return false;
                    }
                    i = i + 1;
                }
                true
            },
            None => false,
        },
        None => false,
    }
}

/// Whether the rules under `key` in the control interface access of `d` are
/// missing or a sequence of access rules.
fn access_rules_or_missing(d: &Vec<(YamlValue, YamlValue)>, key: &str) -> (r: bool)
    ensures
        r == absent_or_rules(access_field(pairs_view(d@), key@)),
{
    let field = match mapping_get(d, "controlInterfaceAccess") {
        Some(c) => c.get(key),
        None => None,
    };
    match field {
        Some(x) => match x.as_sequence() {
            Some(rules) => {
                proof {
                    lemma_seq_view_len(rules@);
                }
                let mut i: usize = 0;
                while i < rules.len()
                    invariant
                        access_field(pairs_view(d@), key@) == Some(x@),
                        x@ == YamlView::Sequence(seq_view(rules@)),
                        seq_view(rules@).len() == rules@.len(),
                        0 <= i <= rules@.len(),
                        forall|k: int| 0 <= k < i ==> rule_shaped(#[trigger] seq_view(rules@)[k]),
                    decreases rules@.len() - i,
                {
                    proof {
                        lemma_seq_view_index(rules@, i as int);
                    }
                    if !is_rule_shaped(&rules[i]) {
                        proof {
                            let rs = seq_view(rules@);
                            let av = access_field(pairs_view(d@), key@).unwrap();
                            assert(av->Sequence_0 == rs);
                            assert(!rule_shaped(av->Sequence_0[i as int]));
                        }
                        return false;
                    }
                    i = i + 1;
                }
                true
            },
            None => false,
        },
        None => true,
    }
}

/// Whether the workload `d` in mapping form has the shapes that the manifest
/// format gives its fields, as reading it needs.
pub fn is_workload_dict_shaped(d: &Vec<(YamlValue, YamlValue)>) -> (r: bool)
    ensures
        r == workload_dict_shaped(pairs_view(d@)),
{
    text_or_missing(d, "agent") && text_or_missing(d, "runtime") && text_or_missing(
        d,
        "runtimeConfig",
    ) && text_or_missing(d, "restartPolicy") && text_mapping_or_missing(d, "dependencies")
        && tags_or_missing(d) && access_rules_or_missing(d, "allowRules") && access_rules_or_missing(
        d,
        "denyRules",
    ) && text_mapping_or_missing(d, "configs")
}

impl Workload {
    /// Reads the workload `name` from its mapping form, as a manifest writes
    /// it, and builds it; see [`build_outcome`] for the errors.
    pub fn new_from_dict(name: &str, dict_workload: &Vec<(YamlValue, YamlValue)>) -> (r: Result<
        Workload,
        AnkaiosError,
    >)
        requires
            workload_dict_shaped(pairs_view(dict_workload@)),
        ensures
            exists|b: WorkloadBuilder|
                builder_from_dict(b, name@, pairs_view(dict_workload@)) && build_outcome(b, r),
    {
        let ghost d = pairs_view(dict_workload@);
        let mut b = Workload::builder().workload_name(name);
        if let Some(v) = mapping_get(dict_workload, "agent") {
            b = b.agent_name(text_of(v).as_str());
        }
        if let Some(v) = mapping_get(dict_workload, "runtime") {
            b = b.runtime(text_of(v).as_str());
        }
        if let Some(v) = mapping_get(dict_workload, "runtimeConfig") {
            b = b.runtime_config(text_of(v).as_str());
        }
        if let Some(v) = mapping_get(dict_workload, "restartPolicy") {
            b = b.restart_policy(text_of(v).as_str());
        }
        b = add_text_entries(b, mapping_get(dict_workload, "dependencies"), true);
        b = add_tags(b, mapping_get(dict_workload, "tags"));
        let access = mapping_get(dict_workload, "controlInterfaceAccess");
        let (allow, deny) = match access {
            Some(c) => (c.get("allowRules"), c.get("denyRules")),
            None => (None, None),
        };
        b = add_rules(b, allow, true);
        b = add_rules(b, deny, false);
        b = add_text_entries(b, mapping_get(dict_workload, "configs"), false);
        let ghost bb = b;
        proof {
            assert(builder_from_dict(bb, name@, d));
        }
        let r = b.build();
        proof {
            assert(builder_from_dict(bb, name@, d) && build_outcome(bb, r));
        }
        r
    }
}

} // verus!
