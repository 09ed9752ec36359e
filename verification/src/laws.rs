//! Properties of the SDK that relate several of its operations.

use vstd::prelude::*;
use crate::ank_base;
use crate::config::{
    config_text_only, config_seq_text_only, config_pairs_text_only, config_value_ok, config_seq_ok,
    config_pairs_ok, config_to_yaml, config_seq_to_yaml, config_fields_to_yaml, yaml_to_config,
    yaml_seq_to_config, yaml_pairs_to_config,
};
use crate::command_interface::{GrpcConfig, grpc_config_text};
use crate::control_interface::{
    ControlInterfaceState, ReadOutcome, FlushOutcome, reader_step, writer_step, connect_next,
    disconnect_next,
};
use crate::file::{File, file_dict, file_from_dict_spec};
use crate::response::parsed_instance_names;
use crate::strings::lemma_dot_parts_three;
use crate::workload::{
    restart_policy_code, restart_policy_name, add_condition_code, add_condition_name,
    operation_code, operation_name, with_mask, tag_lists, tags_from_lists, rules_as_codes,
    named_rules, operations_valid, rule_codes_valid,
};
use crate::workload_state::{instance_name_text, WorkloadStateCollection, WorkloadState};
use crate::yaml::{YamlValue, YamlView, ystr};
use crate::complete_state::{named_values_map, named_values_view, yaml_values_map};
use crate::keyed::{KeyedList, keys_unique, has_key, entries_map, lemma_push_map, flat_agents, law_flat_agents_each_once};
use crate::workload_state::states_as_tuples;

verus! {

/// The names and the codes of restart policies correspond one to one: the
/// name of the code of a name is that name, and the code of the name of a
/// code is that code.
pub proof fn law_restart_policy_names(name: Seq<char>, code: i32)
    ensures
        restart_policy_code(name) matches Some(c) ==> restart_policy_name(c) == Some(name),
        restart_policy_name(code) matches Some(n) ==> restart_policy_code(n) == Some(code),
{
    reveal_strlit("NEVER");
    reveal_strlit("ON_FAILURE");
    reveal_strlit("ALWAYS");
    assert("NEVER"@.len() == 5 && "ON_FAILURE"@.len() == 10 && "ALWAYS"@.len() == 6);
}

/// The names and the codes of dependency conditions correspond one to one.
pub proof fn law_condition_names(name: Seq<char>, code: i32)
    ensures
        add_condition_code(name) matches Some(c) ==> add_condition_name(c) == Some(name),
        add_condition_name(code) matches Some(n) ==> add_condition_code(n) == Some(code),
{
    reveal_strlit("ADD_COND_RUNNING");
    reveal_strlit("ADD_COND_SUCCEEDED");
    reveal_strlit("ADD_COND_FAILED");
    assert("ADD_COND_RUNNING"@.len() == 16 && "ADD_COND_SUCCEEDED"@.len() == 18
        && "ADD_COND_FAILED"@.len() == 15);
}

/// The names and the codes of access rule operations correspond one to
/// one.
pub proof fn law_operation_names(name: Seq<char>, code: i32)
    ensures
        operation_code(name) matches Some(c) ==> operation_name(c) == Some(name),
        operation_name(code) matches Some(n) ==> operation_code(n) == Some(code),
{
    reveal_strlit("Nothing");
    reveal_strlit("Read");
    reveal_strlit("Write");
    reveal_strlit("ReadWrite");
    assert("Nothing"@.len() == 7 && "Read"@.len() == 4 && "Write"@.len() == 5
        && "ReadWrite"@.len() == 9);
}

/// Adding a mask never makes a mask occur twice.
pub proof fn law_masks_stay_distinct(masks: Seq<Seq<char>>, main: Seq<char>, mask: Seq<char>)
    requires
        forall|i: int, j: int| 0 <= i < j < masks.len() ==> masks[i] != masks[j],
    ensures
        forall|i: int, j: int|
            0 <= i < j < with_mask(masks, main, mask).len() ==> with_mask(masks, main, mask)[i]
                != with_mask(masks, main, mask)[j],
{
    if !(masks.contains(mask) || masks.contains(main)) {
        let m = masks.push(mask);
        assert forall|i: int, j: int| 0 <= i < j < m.len() implies m[i] != m[j] by {
            if j == masks.len() as int {
                assert(masks[i] == m[i]);
                if m[i] == mask {
                    assert(masks.contains(mask));
                }
            }
        }
    }
}

/// Once the mask of the whole workload is there, adding any mask changes
/// nothing.
pub proof fn law_main_mask_absorbs(masks: Seq<Seq<char>>, main: Seq<char>, mask: Seq<char>)
    requires
        masks.contains(main),
    ensures
        with_mask(masks, main, mask) == masks,
{
}

/// Adding the same mask twice is adding it once.
pub proof fn law_mask_idempotent(masks: Seq<Seq<char>>, main: Seq<char>, mask: Seq<char>)
    ensures
        with_mask(with_mask(masks, main, mask), main, mask) == with_mask(masks, main, mask),
{
    if !(masks.contains(mask) || masks.contains(main)) {
        assert(masks.push(mask)[masks.len() as int] == mask);
        assert(masks.push(mask).contains(mask));
    }
}

/// The tags that replaced the tags are the tags read back: each list of a
/// key and a value gives the tag read back as the same list.
pub proof fn law_tags_read_back(lists: Seq<Seq<Seq<char>>>, tags: Seq<ank_base::Tag>)
    requires
        forall|i: int| 0 <= i < lists.len() ==> (#[trigger] lists[i]).len() == 2,
        Seq::new(tags.len(), |i: int| tags[i].deep_view()) == tags_from_lists(lists),
    ensures
        tag_lists(tags) == lists,
{
    assert(Seq::new(tags.len(), |i: int| tags[i].deep_view()).len() == tags_from_lists(
        lists,
    ).len());
    assert(tags.len() == lists.len());
    assert forall|i: int| 0 <= i < lists.len() implies tag_lists(tags)[i] == lists[i] by {
        assert(Seq::new(tags.len(), |k: int| tags[k].deep_view())[i] == tags_from_lists(lists)[i]);
        assert(lists[i].len() == 2);
        assert(seq![lists[i][0], lists[i][1]] =~= lists[i]);
    }
    assert(tag_lists(tags) =~= lists);
}

/// Access rules given by known operation names are read back as they were
/// given.
pub proof fn law_rules_read_back(rules: Seq<(Seq<char>, Seq<Seq<char>>)>)
    requires
        operations_valid(rules),
    ensures
        rule_codes_valid(rules_as_codes(rules)),
        named_rules(rules_as_codes(rules)) == rules,
    decreases rules.len(),
{
    let c = rules_as_codes(rules);
    assert forall|i: int| 0 <= i < c.len() && c[i] is Some implies (#[trigger] operation_name(
        c[i].unwrap().0,
    )) is Some by {
        assert(operation_code(rules[i].0) is Some);
        law_operation_names(rules[i].0, 0);
    }
    if rules.len() > 0 {
        let init = rules.drop_last();
        assert(operations_valid(init)) by {
            assert forall|i: int| 0 <= i < init.len() implies (#[trigger] operation_code(
                init[i].0,
            )) is Some by {
                assert(init[i] == rules[i]);
            }
        }
        law_rules_read_back(init);
        assert(c.drop_last() =~= rules_as_codes(init));
        let last = rules.last();
        assert(operation_code(last.0) is Some) by {
            assert(rules[rules.len() - 1] == last);
        }
        law_operation_names(last.0, 0);
        assert(c.last() == Some((operation_code(last.0).unwrap(), last.1)));
        assert(init.push(last) =~= rules);
    } else {
        assert(c =~= Seq::<Option<(i32, Seq<Seq<char>>)>>::empty());
    }
}

/// A file read from its own mapping form is the same file.
pub proof fn law_file_dict_read_back(f: File)
    ensures
        file_from_dict_spec(
            match file_dict(f) {
                YamlView::Mapping(s) => s,
                _ => Seq::empty(),
            },
        ) == Ok::<(Seq<char>, bool, Seq<char>), Seq<char>>((f.mount_point@, f.text(), f.data())),
{
    reveal_strlit("mount_point");
    reveal_strlit("data");
    reveal_strlit("binaryData");
    let s = match file_dict(f) {
        YamlView::Mapping(s) => s,
        _ => Seq::empty(),
    };
    assert(s.drop_first().drop_first() =~= Seq::<(YamlView, YamlView)>::empty());
    assert("mount_point"@.len() == 11 && "data"@.len() == 4 && "binaryData"@.len() == 10);
    assert(ystr("mount_point"@) != ystr("data"@));
    assert(ystr("mount_point"@) != ystr("binaryData"@));
    assert(ystr("data"@) != ystr("binaryData"@));
    reveal_with_fuel(crate::yaml::yaml_get, 3);
    assert(s.drop_first() =~= seq![s[1]]);
    assert(seq![s[1]].drop_first() =~= Seq::<(YamlView, YamlView)>::empty());
}

/// The text of an instance name, as a reported added or deleted workload,
/// is read back as that instance name when none of its parts holds a dot.
pub proof fn law_instance_name_read_back(a: Seq<char>, n: Seq<char>, i: Seq<char>)
    requires
        !a.contains('.'),
        !n.contains('.'),
        !i.contains('.'),
    ensures
        parsed_instance_names(seq![instance_name_text(a, n, i)]) == seq![(a, n, i)],
{
    lemma_dot_parts_three(n, i, a);
    let names = seq![instance_name_text(a, n, i)];
    assert(names.drop_last() =~= Seq::<Seq<char>>::empty());
    assert(parsed_instance_names(names.drop_last()) =~= Seq::empty());
    assert(Seq::<(Seq<char>, Seq<char>, Seq<char>)>::empty().push((a, n, i)) =~= seq![(a, n, i)]);
}

/// A workload state that was added is read back under its instance name,
/// and the states of the other instances stay as they were.
pub proof fn law_state_read_after_add(
    before: WorkloadStateCollection,
    after: WorkloadStateCollection,
    s: WorkloadState,
    agent: Seq<char>,
    name: Seq<char>,
    id: Seq<char>,
)
    requires
        forall|a: Seq<char>, n: Seq<char>, x: Seq<char>|
            #[trigger] after.lookup(a, n, x) == if a == s.workload_instance_name.agent_name@ && n
                == s.workload_instance_name.workload_name@ && x
                == s.workload_instance_name.workload_id@ {
                Some(s.execution_state)
            } else {
                before.lookup(a, n, x)
            },
    ensures
        after.lookup(
            s.workload_instance_name.agent_name@,
            s.workload_instance_name.workload_name@,
            s.workload_instance_name.workload_id@,
        ) == Some(s.execution_state),
        !(agent == s.workload_instance_name.agent_name@ && name
            == s.workload_instance_name.workload_name@ && id
            == s.workload_instance_name.workload_id@) ==> after.lookup(agent, name, id)
            == before.lookup(agent, name, id),
{
    assert(after.lookup(
        s.workload_instance_name.agent_name@,
        s.workload_instance_name.workload_name@,
        s.workload_instance_name.workload_id@,
    ) == Some(s.execution_state));
    assert(after.lookup(agent, name, id) == if agent == s.workload_instance_name.agent_name@ && name
        == s.workload_instance_name.workload_name@ && id == s.workload_instance_name.workload_id@ {
        Some(s.execution_state)
    } else {
        before.lookup(agent, name, id)
    });
}

/// Connecting from a state other than connected, with both pipes there,
/// connects; disconnecting then terminates; disconnecting again fails.
pub proof fn law_connect_disconnect(s: ControlInterfaceState)
    requires
        s != ControlInterfaceState::Initialized,
    ensures
        connect_next(s, true, true) == Some(ControlInterfaceState::Initialized),
        disconnect_next(ControlInterfaceState::Initialized) == Some(ControlInterfaceState::Terminated),
        disconnect_next(ControlInterfaceState::Terminated) is None,
        connect_next(ControlInterfaceState::Initialized, true, true) is None,
{
}

/// When the agent goes away while connected, the reader marks it as away
/// and greets it again; the next message brings the interface back to
/// connected.
pub proof fn law_reader_agent_comes_back()
    ensures
        reader_step(ControlInterfaceState::Initialized, ReadOutcome::EndOfInput).state
            == ControlInterfaceState::AgentDisconnected,
        reader_step(ControlInterfaceState::Initialized, ReadOutcome::EndOfInput).send_hello,
        reader_step(
            reader_step(ControlInterfaceState::Initialized, ReadOutcome::EndOfInput).state,
            ReadOutcome::Message(false),
        ).state == ControlInterfaceState::Initialized,
{
}

/// When writing finds the agent away while connected, the writer marks it
/// as away and greets it again; the next written message brings the
/// interface back to connected.
pub proof fn law_writer_agent_comes_back()
    ensures
        writer_step(ControlInterfaceState::Initialized, FlushOutcome::BrokenPipe).state
            == ControlInterfaceState::AgentDisconnected,
        writer_step(ControlInterfaceState::Initialized, FlushOutcome::BrokenPipe).resend_hello,
        writer_step(
            writer_step(ControlInterfaceState::Initialized, FlushOutcome::BrokenPipe).state,
            FlushOutcome::Flushed,
        ).state == ControlInterfaceState::Initialized,
{
}

/// A failed read terminates the interface from any state and stops the
/// reader; no read or flush makes the connection closed.
pub proof fn law_failure_terminates(s: ControlInterfaceState, r: ReadOutcome, f: FlushOutcome)
    ensures
        reader_step(s, ReadOutcome::Failure).state == ControlInterfaceState::Terminated,
        reader_step(s, ReadOutcome::Failure).stop,
        s != ControlInterfaceState::ConnectionClosed ==> reader_step(s, r).state
            != ControlInterfaceState::ConnectionClosed,
        s != ControlInterfaceState::ConnectionClosed ==> writer_step(s, f).state
            != ControlInterfaceState::ConnectionClosed,
{
}

/// A config value made of strings, nulls, sequences and mappings with string
/// keys is read back from its protocol form as the same value.
pub proof fn law_config_read_back(v: YamlView)
    requires
        config_text_only(v),
    ensures
        config_value_ok(v),
        config_to_yaml(yaml_to_config(v)) == v,
    decreases v,
{
    match v {
        YamlView::Sequence(xs) => {
            lemma_config_seq_read_back(xs);
        },
        YamlView::Mapping(es) => {
            lemma_config_pairs_read_back(es);
        },
        _ => {},
    }
}

proof fn lemma_config_seq_read_back(xs: Seq<YamlView>)
    requires
        config_seq_text_only(xs),
    ensures
        config_seq_ok(xs),
        config_seq_to_yaml(yaml_seq_to_config(xs)) == xs,
    decreases xs,
{
    if xs.len() > 0 {
        assert(decreases_to!(xs => xs.drop_last()));
        lemma_config_seq_read_back(xs.drop_last());
        assert(decreases_to!(xs => xs[xs.len() - 1]));
        law_config_read_back(xs.last());
        let ys = yaml_seq_to_config(xs);
        assert(ys.drop_last() == yaml_seq_to_config(xs.drop_last()));
        assert(xs.drop_last().push(xs.last()) =~= xs);
    }
}

proof fn lemma_config_pairs_read_back(es: Seq<(YamlView, YamlView)>)
    requires
        config_pairs_text_only(es),
    ensures
        config_pairs_ok(es),
        config_fields_to_yaml(yaml_pairs_to_config(es)) == es,
    decreases es,
{
    if es.len() > 0 {
        assert(decreases_to!(es => es.drop_last()));
        lemma_config_pairs_read_back(es.drop_last());
        assert(decreases_to!(es => es[es.len() - 1]));
        assert(decreases_to!(es[es.len() - 1] => es[es.len() - 1].1));
        law_config_read_back(es.last().1);
        let fs = yaml_pairs_to_config(es);
        assert(fs.drop_last() == yaml_pairs_to_config(es.drop_last()));
        assert(es.drop_last().push(es.last()) =~= es);
    }
}

/// The text of a connection configuration never shows its secrets: two
/// configurations that differ only in the contents of their secrets have the
/// same text.
pub proof fn law_secrets_never_shown(a: GrpcConfig, b: GrpcConfig)
    requires
        a.server_url@ == b.server_url@,
        a.insecure == b.insecure,
        a.ca_pem is Some <==> b.ca_pem is Some,
        a.crt_pem is Some <==> b.crt_pem is Some,
        a.key_pem is Some <==> b.key_pem is Some,
    ensures
        grpc_config_text(a) == grpc_config_text(b),
{
}

proof fn lemma_named_values_map_of_view(a: Seq<(String, YamlValue)>, b: Seq<(String, YamlValue)>)
    requires
        named_values_view(a) == named_values_view(b),
    ensures
        named_values_map(a) == named_values_map(b),
    decreases a.len(),
{
    assert(named_values_view(a).len() == a.len());
    assert(named_values_view(b).len() == b.len());
    if a.len() > 0 {
        let n = a.len() - 1;
        assert(named_values_view(a.drop_last()) =~= named_values_view(b.drop_last())) by {
            assert forall|i: int| 0 <= i < n implies named_values_view(a.drop_last())[i]
                == named_values_view(b.drop_last())[i] by {
                assert(named_values_view(a)[i] == named_values_view(b)[i]);
            }
        }
        lemma_named_values_map_of_view(a.drop_last(), b.drop_last());
        assert(named_values_view(a)[n] == named_values_view(b)[n]);
    }
}

proof fn lemma_named_values_map_unique(s: Seq<(String, YamlValue)>)
    requires
        keys_unique(s),
    ensures
        named_values_map(s) == yaml_values_map(entries_map(s)),
    decreases s.len(),
{
    if s.len() == 0 {
        assert(yaml_values_map(entries_map(s)) =~= Map::<Seq<char>, YamlView>::empty());
    } else {
        let p = s.drop_last();
        let e = s.last();
        assert(keys_unique(p));
        assert(!has_key(p, e.0@)) by {
            if has_key(p, e.0@) {
                let i = choose|i: int| 0 <= i < p.len() && p[i].0@ == e.0@;
                assert(s[i].0@ == s[s.len() - 1].0@);
            }
        }
        lemma_push_map(p, e.0, e.1);
        assert(p.push(e) =~= s);
        lemma_named_values_map_unique(p);
        assert(yaml_values_map(entries_map(s)) =~= yaml_values_map(entries_map(p)).insert(e.0@, e.1@));
    }
}

/// Setting the configs and then reading them gives the configs that were
/// set, as a map from names to values (a later entry for a name replaces
/// an earlier one): `configs` is what `set_configs` was given, `c` the
/// configs it left, and `r` what `get_configs` then gives.
pub proof fn law_configs_set_then_read(
    configs: Seq<(String, YamlValue)>,
    c: KeyedList<YamlValue>,
    r: Seq<(String, YamlValue)>,
)
    requires
        c.wf(),
        yaml_values_map(c.map()) == named_values_map(configs),
        named_values_view(r) == named_values_view(c.entries@),
    ensures
        named_values_map(r) == named_values_map(configs),
{
    lemma_named_values_map_of_view(r, c.entries@);
    lemma_named_values_map_unique(c.entries@);
}

/// The list of workload states of a collection holds each stored state
/// exactly once: each listed state is the one stored under its instance
/// name, no two listed states have the same instance name, and each stored
/// state is listed. `r` is what `get_as_list` gives for `c`.
pub proof fn law_list_holds_each_state_once(c: WorkloadStateCollection, r: Seq<WorkloadState>)
    requires
        c.wf(),
        states_as_tuples(r) == flat_agents(c.workload_states.entries@),
    ensures
        forall|k: int|
            0 <= k < r.len() ==> c.lookup(
                (#[trigger] r[k]).workload_instance_name.agent_name@,
                r[k].workload_instance_name.workload_name@,
                r[k].workload_instance_name.workload_id@,
            ) == Some(r[k].execution_state),
        forall|j: int, k: int|
            0 <= j < k < r.len() ==> !((#[trigger] r[j]).workload_instance_name.deep_view() == (
            #[trigger] r[k]).workload_instance_name.deep_view()),
        forall|a: Seq<char>, n: Seq<char>, i: Seq<char>|
            #[trigger] c.lookup(a, n, i) is Some ==> exists|k: int|
                0 <= k < r.len() && (#[trigger] r[k]).workload_instance_name.deep_view() == (a, n, i),
{
    let l = flat_agents(c.workload_states.entries@);
    law_flat_agents_each_once(c.workload_states);
    assert(r.len() == l.len()) by {
        assert(states_as_tuples(r).len() == r.len());
    }
    assert forall|k: int| 0 <= k < r.len() implies (#[trigger] states_as_tuples(r)[k]) == l[k] by {}
    assert forall|k: int| 0 <= k < r.len() implies c.lookup(
        (#[trigger] r[k]).workload_instance_name.agent_name@,
        r[k].workload_instance_name.workload_name@,
        r[k].workload_instance_name.workload_id@,
    ) == Some(r[k].execution_state) by {
        assert(states_as_tuples(r)[k] == l[k]);
    }
    assert forall|j: int, k: int| 0 <= j < k < r.len() implies !((#[trigger] r[j]).workload_instance_name.deep_view()
        == (#[trigger] r[k]).workload_instance_name.deep_view()) by {
        assert(states_as_tuples(r)[j] == l[j]);
        assert(states_as_tuples(r)[k] == l[k]);
        assert(!(l[j].0 == l[k].0 && l[j].1 == l[k].1 && l[j].2 == l[k].2));
    }
    assert forall|a: Seq<char>, n: Seq<char>, i: Seq<char>| #[trigger] c.lookup(a, n, i) is Some implies exists|
        k: int,
    | 0 <= k < r.len() && (#[trigger] r[k]).workload_instance_name.deep_view() == (a, n, i) by {
        assert(crate::keyed::lookup3(c.workload_states, a, n, i) is Some);
        let k = choose|k: int| 0 <= k < l.len() && (#[trigger] l[k]).0 == a && l[k].1 == n && l[k].2 == i;
        assert(states_as_tuples(r)[k] == l[k]);
    }
}

} // verus!
