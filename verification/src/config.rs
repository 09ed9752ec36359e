//! Config values: YAML values as the SDK holds them, and their protocol form.

use vstd::prelude::*;
use crate::ank_base::{
    ConfigItem, ConfigView, config_view, config_seq_view, config_fields_view,
    lemma_config_seq_view_push, lemma_config_fields_view_push, lemma_config_seq_view_index,
    lemma_config_seq_view_len, lemma_config_fields_view_index, lemma_config_fields_view_len,
};
use crate::keyed::KeyedList;
use crate::workload_dict::yaml_text;
use crate::yaml::{
    YamlValue, YamlView, seq_view, pairs_view, lemma_seq_view_push, lemma_pairs_view_push,
    lemma_seq_view_index, lemma_seq_view_len, lemma_pairs_view_index, lemma_pairs_view_len,
};

verus! {

/// The protocol form of a YAML value: strings, sequences and mappings keep
/// their shape; any other value becomes an empty config item.
pub open spec fn yaml_to_config(v: YamlView) -> ConfigView
    decreases v,
{
    match v {
        YamlView::Str(s) => ConfigView::Text(s),
        YamlView::Sequence(xs) => ConfigView::Array(yaml_seq_to_config(xs)),
        YamlView::Mapping(es) => ConfigView::Object(yaml_pairs_to_config(es)),
        _ => ConfigView::Empty,
    }
}

pub open spec fn yaml_seq_to_config(xs: Seq<YamlView>) -> Seq<ConfigView>
    decreases xs,
{
    if xs.len() == 0 {
        Seq::empty()
    } else {
        yaml_seq_to_config(xs.drop_last()).push(yaml_to_config(xs.last()))
    }
}

pub open spec fn yaml_pairs_to_config(es: Seq<(YamlView, YamlView)>) -> Seq<(Seq<char>, ConfigView)>
    decreases es,
{
    if es.len() == 0 {
        Seq::empty()
    } else {
        yaml_pairs_to_config(es.drop_last()).push(
            (yaml_text(es.last().0), yaml_to_config(es.last().1)),
        )
    }
}

/// The YAML form of a config item: strings, arrays and objects keep their
/// shape (object fields become string keys); an empty item is null.
pub open spec fn config_to_yaml(c: ConfigView) -> YamlView
    decreases c,
{
    match c {
        ConfigView::Empty => YamlView::Null,
        ConfigView::Text(s) => YamlView::Str(s),
        ConfigView::Array(xs) => YamlView::Sequence(config_seq_to_yaml(xs)),
        ConfigView::Object(fs) => YamlView::Mapping(config_fields_to_yaml(fs)),
    }
}

pub open spec fn config_seq_to_yaml(xs: Seq<ConfigView>) -> Seq<YamlView>
    decreases xs,
{
    if xs.len() == 0 {
        Seq::empty()
    } else {
        config_seq_to_yaml(xs.drop_last()).push(config_to_yaml(xs.last()))
    }
}

pub open spec fn config_fields_to_yaml(fs: Seq<(Seq<char>, ConfigView)>) -> Seq<(YamlView, YamlView)>
    decreases fs,
{
    if fs.len() == 0 {
        Seq::empty()
    } else {
        config_fields_to_yaml(fs.drop_last()).push(
            (YamlView::Str(fs.last().0), config_to_yaml(fs.last().1)),
        )
    }
}

/// A YAML value made only of strings, nulls, sequences and mappings with
/// string keys, at every depth: the values that the protocol form of
/// configs keeps.
pub open spec fn config_text_only(v: YamlView) -> bool
    decreases v,
{
    match v {
        YamlView::Null => true,
        YamlView::Str(_) => true,
        YamlView::Sequence(xs) => config_seq_text_only(xs),
        YamlView::Mapping(es) => config_pairs_text_only(es),
        _ => false,
    }
}

pub open spec fn config_seq_text_only(xs: Seq<YamlView>) -> bool
    decreases xs,
{
    if xs.len() == 0 {
        true
    } else {
        config_seq_text_only(xs.drop_last()) && config_text_only(xs.last())
    }
}

pub open spec fn config_pairs_text_only(es: Seq<(YamlView, YamlView)>) -> bool
    decreases es,
{
    if es.len() == 0 {
        true
    } else {
        config_pairs_text_only(es.drop_last()) && es.last().0 is Str && config_text_only(
            es.last().1,
        )
    }
}

/// A YAML value that can be a config: the keys of its mappings, at every
/// depth, are strings.
pub open spec fn config_value_ok(v: YamlView) -> bool
    decreases v,
{
    match v {
        YamlView::Sequence(xs) => config_seq_ok(xs),
        YamlView::Mapping(es) => config_pairs_ok(es),
        _ => true,
    }
}

pub open spec fn config_seq_ok(xs: Seq<YamlView>) -> bool
    decreases xs,
{
    if xs.len() == 0 {
        true
    } else {
        config_seq_ok(xs.drop_last()) && config_value_ok(xs.last())
    }
}

pub open spec fn config_pairs_ok(es: Seq<(YamlView, YamlView)>) -> bool
    decreases es,
{
    if es.len() == 0 {
        true
    } else {
        config_pairs_ok(es.drop_last()) && es.last().0 is Str && config_value_ok(es.last().1)
    }
}

proof fn lemma_seq_ok_index(xs: Seq<YamlView>, i: int)
    requires
        config_seq_ok(xs),
        0 <= i < xs.len(),
    ensures
        config_value_ok(xs[i]),
    decreases xs.len(),
{
    if i < xs.len() - 1 {
        lemma_seq_ok_index(xs.drop_last(), i);
    }
}

proof fn lemma_pairs_ok_index(es: Seq<(YamlView, YamlView)>, i: int)
    requires
        config_pairs_ok(es),
        0 <= i < es.len(),
    ensures
        es[i].0 is Str,
        config_value_ok(es[i].1),
    decreases es.len(),
{
    if i < es.len() - 1 {
        lemma_pairs_ok_index(es.drop_last(), i);
    }
}

proof fn lemma_take_step<A>(s: Seq<A>, i: int)
    requires
        0 <= i < s.len(),
    ensures
        s.take(i + 1).drop_last() == s.take(i),
        s.take(i + 1).last() == s[i],
{
    assert(s.take(i + 1).drop_last() =~= s.take(i));
}

/// Whether a YAML value can be a config: its mappings, at any depth, have
/// string keys.
pub fn is_config_value_ok(v: &YamlValue) -> (r: bool)
    ensures
        r == config_value_ok(v@),
    decreases v,
{
    match v {
        YamlValue::Sequence(items) => {
            let ghost xs = seq_view(items@);
            proof {
                lemma_seq_view_len(items@);
            }
            let mut i: usize = 0;
            while i < items.len()
                invariant
                    *v == YamlValue::Sequence(*items),
                    xs == seq_view(items@),
                    xs.len() == items@.len(),
                    0 <= i <= items@.len(),
                    config_seq_ok(xs.take(i as int)),
                decreases items@.len() - i,
            {
                proof {
                    assert(decreases_to!(*v => v->Sequence_0));
                    assert(decreases_to!(*items => items@));
                    assert(decreases_to!(items@ => items@[i as int]));
                    lemma_seq_view_index(items@, i as int);
                    lemma_take_step(xs, i as int);
                }
                if !is_config_value_ok(&items[i]) {
                    proof {
                        if config_seq_ok(xs) {
                            lemma_seq_ok_index(xs, i as int);
                        }
                    }
                    return false;
                }
                i = i + 1;
            }
            proof {
                assert(xs.take(i as int) =~= xs);
            }
            true
        },
        YamlValue::Mapping(entries) => {
            let ghost es = pairs_view(entries@);
            proof {
                lemma_pairs_view_len(entries@);
            }
            let mut i: usize = 0;
            while i < entries.len()
                invariant
                    *v == YamlValue::Mapping(*entries),
                    es == pairs_view(entries@),
                    es.len() == entries@.len(),
                    0 <= i <= entries@.len(),
                    config_pairs_ok(es.take(i as int)),
                decreases entries@.len() - i,
            {
                proof {
                    assert(decreases_to!(*v => v->Mapping_0));
                    assert(decreases_to!(*entries => entries@));
                    assert(decreases_to!(entries@ => entries@[i as int]));
                    assert(decreases_to!(entries@[i as int] => entries@[i as int].1));
                    lemma_pairs_view_index(entries@, i as int);
                    lemma_take_step(es, i as int);
                }
                if entries[i].0.as_str().is_none() || !is_config_value_ok(&entries[i].1) {
                    proof {
                        if config_pairs_ok(es) {
                            lemma_pairs_ok_index(es, i as int);
                        }
                    }
                    return false;
                }
                i = i + 1;
            }
            proof {
                assert(es.take(i as int) =~= es);
            }
            true
        },
        _ => true,
    }
}

/// The protocol form of a YAML value.
pub fn to_config_item(v: &YamlValue) -> (r: ConfigItem)
    requires
        config_value_ok(v@),
    ensures
        r.deep_view() == yaml_to_config(v@),
    decreases v,
{
    match v {
        YamlValue::Str(s) => ConfigItem::String(s.clone()),
        YamlValue::Sequence(items) => {
            let ghost xs = seq_view(items@);
            proof {
                lemma_seq_view_len(items@);
            }
            let mut out: Vec<ConfigItem> = Vec::new();
            let mut i: usize = 0;
            while i < items.len()
                invariant
                    *v == YamlValue::Sequence(*items),
                    xs == seq_view(items@),
                    xs.len() == items@.len(),
                    config_seq_ok(xs),
                    0 <= i <= items@.len(),
                    config_seq_view(out@) == yaml_seq_to_config(xs.take(i as int)),
                decreases items@.len() - i,
            {
                proof {
                    assert(decreases_to!(*v => v->Sequence_0));
                    assert(decreases_to!(*items => items@));
                    assert(decreases_to!(items@ => items@[i as int]));
                    lemma_seq_view_index(items@, i as int);
                    lemma_seq_ok_index(xs, i as int);
                    lemma_take_step(xs, i as int);
                }
                let c = to_config_item(&items[i]);
                proof {
                    lemma_config_seq_view_push(out@, c);
                }
                out.push(c);
                i = i + 1;
            }
            proof {
                assert(xs.take(i as int) =~= xs);
            }
            ConfigItem::Array(out)
        },
        YamlValue::Mapping(entries) => {
            let ghost es = pairs_view(entries@);
            proof {
                lemma_pairs_view_len(entries@);
            }
            let mut out: Vec<(String, ConfigItem)> = Vec::new();
            let mut i: usize = 0;
            while i < entries.len()
                invariant
                    *v == YamlValue::Mapping(*entries),
                    es == pairs_view(entries@),
                    es.len() == entries@.len(),
                    config_pairs_ok(es),
                    0 <= i <= entries@.len(),
                    config_fields_view(out@) == yaml_pairs_to_config(es.take(i as int)),
                decreases entries@.len() - i,
            {
                proof {
                    assert(decreases_to!(*v => v->Mapping_0));
                    assert(decreases_to!(*entries => entries@));
                    assert(decreases_to!(entries@ => entries@[i as int]));
                    assert(decreases_to!(entries@[i as int] => entries@[i as int].1));
                    lemma_pairs_view_index(entries@, i as int);
                    lemma_pairs_ok_index(es, i as int);
                    lemma_take_step(es, i as int);
                }
                let key = match entries[i].0.as_str() {
                    Some(k) => k.clone(),
                    None => vstd::pervasive::unreached(),
                };
                let c = to_config_item(&entries[i].1);
                proof {
                    lemma_config_fields_view_push(out@, key, c);
                }
                out.push((key, c));
                i = i + 1;
            }
            proof {
                assert(es.take(i as int) =~= es);
            }
            ConfigItem::Object(KeyedList { entries: out })
        },
        YamlValue::Null => ConfigItem::Empty,
        YamlValue::Bool(_) => ConfigItem::Empty,
        YamlValue::Number(_) => ConfigItem::Empty,
    }
}

/// The YAML form of a config item.
pub fn from_config_item(c: &ConfigItem) -> (r: YamlValue)
    ensures
        r@ == config_to_yaml(c.deep_view()),
    decreases c,
{
    match c {
        ConfigItem::Empty => YamlValue::Null,
        ConfigItem::String(s) => YamlValue::Str(s.clone()),
        ConfigItem::Array(items) => {
            let ghost xs = config_seq_view(items@);
            proof {
                lemma_config_seq_view_len(items@);
            }
            let mut out: Vec<YamlValue> = Vec::new();
            let mut i: usize = 0;
            while i < items.len()
                invariant
                    *c == ConfigItem::Array(*items),
                    xs == config_seq_view(items@),
                    xs.len() == items@.len(),
                    0 <= i <= items@.len(),
                    seq_view(out@) == config_seq_to_yaml(xs.take(i as int)),
                decreases items@.len() - i,
            {
                proof {
                    assert(decreases_to!(*c => c->Array_0));
                    assert(decreases_to!(*items => items@));
                    assert(decreases_to!(items@ => items@[i as int]));
                    lemma_config_seq_view_index(items@, i as int);
                    lemma_take_step(xs, i as int);
                }
                let y = from_config_item(&items[i]);
                proof {
                    lemma_seq_view_push(out@, y);
                }
                out.push(y);
                i = i + 1;
            }
            proof {
                assert(xs.take(i as int) =~= xs);
            }
            YamlValue::Sequence(out)
        },
        ConfigItem::Object(fields) => {
            let ghost fs = config_fields_view(fields.entries@);
            proof {
                lemma_config_fields_view_len(fields.entries@);
            }
            let mut out: Vec<(YamlValue, YamlValue)> = Vec::new();
            let mut i: usize = 0;
            while i < fields.entries.len()
                invariant
                    *c == ConfigItem::Object(*fields),
                    fs == config_fields_view(fields.entries@),
                    fs.len() == fields.entries@.len(),
                    0 <= i <= fields.entries@.len(),
                    pairs_view(out@) == config_fields_to_yaml(fs.take(i as int)),
                decreases fields.entries@.len() - i,
            {
                proof {
                    assert(decreases_to!(*c => c->Object_0));
                    assert(decreases_to!(*fields => fields.entries));
                    assert(decreases_to!(fields.entries => fields.entries@));
                    assert(decreases_to!(fields.entries@ => fields.entries@[i as int]));
                    assert(decreases_to!(fields.entries@[i as int] => fields.entries@[i as int].1));
                    lemma_config_fields_view_index(fields.entries@, i as int);
                    lemma_take_step(fs, i as int);
                }
                let k = YamlValue::Str(fields.entries[i].0.clone());
                let y = from_config_item(&fields.entries[i].1);
                proof {
                    lemma_pairs_view_push(out@, k, y);
                }
                out.push((k, y));
                i = i + 1;
            }
            proof {
                assert(fs.take(i as int) =~= fs);
            }
            YamlValue::Mapping(out)
        },
    }
}

} // verus!
