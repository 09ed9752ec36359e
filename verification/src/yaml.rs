//! A plain-data model of YAML documents, as the SDK reads and writes them.

use vstd::prelude::*;

verus! {

/// A YAML value. Numbers are kept in their textual form.
#[derive(Debug, PartialEq, Eq)]
pub enum YamlValue {
    Null,
    Bool(bool),
    Number(String),
    Str(String),
    Sequence(Vec<YamlValue>),
    Mapping(Vec<(YamlValue, YamlValue)>),
}

/// The mathematical view of a [`YamlValue`].
pub enum YamlView {
    Null,
    Bool(bool),
    Number(Seq<char>),
    Str(Seq<char>),
    Sequence(Seq<YamlView>),
    Mapping(Seq<(YamlView, YamlView)>),
}

pub open spec fn seq_view(s: Seq<YamlValue>) -> Seq<YamlView>
    decreases s,
{
    if s.len() == 0 {
        Seq::empty()
    } else {
        seq_view(s.drop_last()).push(value_view(s.last()))
    }
}

pub open spec fn pairs_view(s: Seq<(YamlValue, YamlValue)>) -> Seq<(YamlView, YamlView)>
    decreases s,
{
    if s.len() == 0 {
        Seq::empty()
    } else {
        pairs_view(s.drop_last()).push((value_view(s.last().0), value_view(s.last().1)))
    }
}

pub open spec fn value_view(v: YamlValue) -> YamlView
    decreases v,
{
    match v {
        YamlValue::Null => YamlView::Null,
        YamlValue::Bool(b) => YamlView::Bool(b),
        YamlValue::Number(n) => YamlView::Number(n@),
        YamlValue::Str(s) => YamlView::Str(s@),
        YamlValue::Sequence(items) => YamlView::Sequence(seq_view(items@)),
        YamlValue::Mapping(entries) => YamlView::Mapping(pairs_view(entries@)),
    }
}

impl View for YamlValue {
    type V = YamlView;

    open spec fn view(&self) -> YamlView {
        value_view(*self)
    }
}

/// A YAML string holding `s`.
pub open spec fn ystr(s: Seq<char>) -> YamlView {
    YamlView::Str(s)
}

impl YamlValue {
    /// A YAML string holding a copy of `s`.
    pub fn from_str_slice(s: &str) -> (r: YamlValue)
        ensures
            r@ == ystr(s@),
    {
        YamlValue::Str(s.to_owned())
    }

    /// A YAML string holding `s`.
    pub fn from_string(s: String) -> (r: YamlValue)
        ensures
            r@ == ystr(s@),
    {
        YamlValue::Str(s)
    }

    /// A YAML mapping made of `entries`, in order.
    pub fn from_entries(entries: Vec<(YamlValue, YamlValue)>) -> (r: YamlValue)
        ensures
            r@ == YamlView::Mapping(pairs_view(entries@)),
    {
        YamlValue::Mapping(entries)
    }
}

pub proof fn lemma_pairs_view_push(s: Seq<(YamlValue, YamlValue)>, k: YamlValue, v: YamlValue)
    ensures
        pairs_view(s.push((k, v))) == pairs_view(s).push((k@, v@)),
{
    assert(s.push((k, v)).drop_last() =~= s);
}

pub proof fn lemma_seq_view_push(s: Seq<YamlValue>, v: YamlValue)
    ensures
        seq_view(s.push(v)) == seq_view(s).push(v@),
{
    assert(s.push(v).drop_last() =~= s);
}

pub proof fn lemma_pairs_view_len(s: Seq<(YamlValue, YamlValue)>)
    ensures
        pairs_view(s).len() == s.len(),
    decreases s.len(),
{
    if s.len() > 0 {
        lemma_pairs_view_len(s.drop_last());
    }
}

pub proof fn lemma_pairs_view_index(s: Seq<(YamlValue, YamlValue)>, i: int)
    requires
        0 <= i < s.len(),
    ensures
        pairs_view(s).len() == s.len(),
        pairs_view(s)[i] == (s[i].0@, s[i].1@),
    decreases s.len(),
{
    lemma_pairs_view_len(s);
    if i < s.len() - 1 {
        lemma_pairs_view_index(s.drop_last(), i);
    }
}

pub proof fn lemma_seq_view_len(s: Seq<YamlValue>)
    ensures
        seq_view(s).len() == s.len(),
    decreases s.len(),
{
    if s.len() > 0 {
        lemma_seq_view_len(s.drop_last());
    }
}

pub proof fn lemma_seq_view_index(s: Seq<YamlValue>, i: int)
    requires
        0 <= i < s.len(),
    ensures
        seq_view(s).len() == s.len(),
        seq_view(s)[i] == s[i]@,
    decreases s.len(),
{
    lemma_seq_view_len(s);
    if i < s.len() - 1 {
        lemma_seq_view_index(s.drop_last(), i);
    }
}


/// The value under the first key of `s` equal to `k`.
pub open spec fn yaml_get(s: Seq<(YamlView, YamlView)>, k: YamlView) -> Option<YamlView>
    decreases s.len(),
{
    if s.len() == 0 {
        None
    } else if s[0].0 == k {
        Some(s[0].1)
    } else {
        yaml_get(s.drop_first(), k)
    }
}

/// The value under the first key of a mapping equal to `k`; nothing for a
/// value that is not a mapping.
pub open spec fn yaml_field(v: YamlView, k: YamlView) -> Option<YamlView> {
    match v {
        YamlView::Mapping(s) => yaml_get(s, k),
        _ => None,
    }
}

/// The text of a YAML string.
pub open spec fn yaml_as_str(v: Option<YamlView>) -> Option<Seq<char>> {
    match v {
        Some(YamlView::Str(s)) => Some(s),
        _ => None,
    }
}

pub proof fn lemma_yaml_get_skip(s: Seq<(YamlView, YamlView)>, k: YamlView, i: int)
    requires
        0 <= i < s.len(),
        s[i].0 != k,
    ensures
        yaml_get(s.skip(i), k) == yaml_get(s.skip(i + 1), k),
{
    assert(s.skip(i).drop_first() =~= s.skip(i + 1));
}

impl YamlValue {
    /// Whether this value is the string `key`.
    pub fn is_str(&self, key: &str) -> (r: bool)
        ensures
            r == (self@ == ystr(key@)),
    {
        match self {
            YamlValue::Str(s) => *s == key.to_owned(),
            _ => false,
        }
    }

    /// The text of this value if it is a string.
    pub fn as_str(&self) -> (r: Option<&String>)
        ensures
            match r {
                Some(s) => self@ == ystr(s@),
                None => !(self@ is Str),
            },
    {
        match self {
            YamlValue::Str(s) => Some(s),
            _ => None,
        }
    }

    /// The entries of this value if it is a mapping.
    pub fn as_mapping(&self) -> (r: Option<&Vec<(YamlValue, YamlValue)>>)
        ensures
            match r {
                Some(m) => self@ == YamlView::Mapping(pairs_view(m@)),
                None => !(self@ is Mapping),
            },
    {
        match self {
            YamlValue::Mapping(m) => Some(m),
            _ => None,
        }
    }

    /// The items of this value if it is a sequence.
    pub fn as_sequence(&self) -> (r: Option<&Vec<YamlValue>>)
        ensures
            match r {
                Some(items) => self@ == YamlView::Sequence(seq_view(items@)),
                None => !(self@ is Sequence),
            },
    {
        match self {
            YamlValue::Sequence(items) => Some(items),
            _ => None,
        }
    }

    /// The value stored under the string key `key` if this value is a
    /// mapping.
    pub fn get(&self, key: &str) -> (r: Option<&YamlValue>)
        ensures
            match r {
                Some(v) => yaml_field(self@, ystr(key@)) == Some(v@),
                None => yaml_field(self@, ystr(key@)) is None,
            },
    {
        match self {
            YamlValue::Mapping(m) => mapping_get(m, key),
            _ => None,
        }
    }
}

/// The value stored under the first key of `entries` that is the string
/// `key`.
pub fn mapping_get<'a>(entries: &'a Vec<(YamlValue, YamlValue)>, key: &str) -> (r: Option<
    &'a YamlValue,
>)
    ensures
        match r {
            Some(v) => yaml_get(pairs_view(entries@), ystr(key@)) == Some(v@),
            None => yaml_get(pairs_view(entries@), ystr(key@)) is None,
        },
{
    let ghost s = pairs_view(entries@);
    proof {
        lemma_pairs_view_len(entries@);
        assert(s.skip(0) =~= s);
    }
    let mut i: usize = 0;
    while i < entries.len()
        invariant
            s == pairs_view(entries@),
            s.len() == entries@.len(),
            0 <= i <= entries@.len(),
            yaml_get(s, ystr(key@)) == yaml_get(s.skip(i as int), ystr(key@)),
        decreases entries@.len() - i,
    {
        proof {
            lemma_pairs_view_index(entries@, i as int);
        }
        if entries[i].0.is_str(key) {
            proof {
                assert(s.skip(i as int)[0] == s[i as int]);
            }
            return Some(&entries[i].1);
        }
        proof {
            lemma_yaml_get_skip(s, ystr(key@), i as int);
        }
        i = i + 1;
    }
    proof {
        assert(s.skip(i as int).len() == 0);
    }
    None
}


impl YamlValue {
    /// A copy of this value.
    pub fn duplicate(&self) -> (r: YamlValue)
        ensures
            r@ == self@,
        decreases self,
    {
        match self {
            YamlValue::Null => YamlValue::Null,
            YamlValue::Bool(b) => YamlValue::Bool(*b),
            YamlValue::Number(n) => YamlValue::Number(n.clone()),
            YamlValue::Str(s) => YamlValue::Str(s.clone()),
            YamlValue::Sequence(items) => {
                let mut out: Vec<YamlValue> = Vec::new();
                let mut i: usize = 0;
                proof {
                    lemma_seq_view_len(items@);
                }
                while i < items.len()
                    invariant
                        *self == YamlValue::Sequence(*items),
                        0 <= i <= items@.len(),
                        seq_view(items@).len() == items@.len(),
                        seq_view(out@) == seq_view(items@).take(i as int),
                    decreases items@.len() - i,
                {
                    proof {
                        assert(decreases_to!(*self => self->Sequence_0));
                        assert(decreases_to!(*items => items@));
                        assert(decreases_to!(items@ => items@[i as int]));
                        lemma_seq_view_index(items@, i as int);
                    }
                    let item = items[i].duplicate();
                    proof {
                        lemma_seq_view_push(out@, item);
                    }
                    out.push(item);
                    proof {
                        assert(seq_view(out@) =~= seq_view(items@).take(i + 1));
                    }
                    i = i + 1;
                }
                proof {
                    assert(seq_view(items@).take(i as int) =~= seq_view(items@));
                }
                YamlValue::Sequence(out)
            },
            YamlValue::Mapping(entries) => {
                let mut out: Vec<(YamlValue, YamlValue)> = Vec::new();
                let mut i: usize = 0;
                proof {
                    lemma_pairs_view_len(entries@);
                }
                while i < entries.len()
                    invariant
                        *self == YamlValue::Mapping(*entries),
                        0 <= i <= entries@.len(),
                        pairs_view(entries@).len() == entries@.len(),
                        pairs_view(out@) == pairs_view(entries@).take(i as int),
                    decreases entries@.len() - i,
                {
                    proof {
                        assert(decreases_to!(*self => self->Mapping_0));
                        assert(decreases_to!(*entries => entries@));
                        assert(decreases_to!(entries@ => entries@[i as int]));
                        assert(decreases_to!(entries@[i as int] => entries@[i as int].0));
                        assert(decreases_to!(entries@[i as int] => entries@[i as int].1));
                        lemma_pairs_view_index(entries@, i as int);
                    }
                    let k = entries[i].0.duplicate();
                    let v = entries[i].1.duplicate();
                    proof {
                        lemma_pairs_view_push(out@, k, v);
                    }
                    out.push((k, v));
                    proof {
                        assert(pairs_view(out@) =~= pairs_view(entries@).take(i + 1));
                    }
                    i = i + 1;
                }
                proof {
                    assert(pairs_view(entries@).take(i as int) =~= pairs_view(entries@));
                }
                YamlValue::Mapping(out)
            },
        }
    }
}


impl DeepView for YamlValue {
    type V = YamlView;

    open spec fn deep_view(&self) -> YamlView {
        self@
    }
}

impl crate::ank_base::DeepCopy for YamlValue {
    fn deep_copy(&self) -> (r: Self) {
        self.duplicate()
    }
}

/// The YAML value of an outside YAML document, as `serde_yaml` reads it.
#[verifier::external_type_specification]
#[verifier::external_body]
pub struct ExSerdeYamlValue(serde_yaml::Value);

/// What `serde_yaml::from_str::<serde_yaml::Value>` reads from a text: the
/// document, in the library's form, or the text of the error. It depends on
/// the text alone.
pub uninterp spec fn yaml_document(text: Seq<char>) -> Result<YamlView, Seq<char>>;

/// The library's form of a `serde_yaml` value, converted one variant at a
/// time: a number keeps its text (`serde_yaml::Number`'s `Display`), and a
/// tagged value keeps its value. Only `parse_yaml` calls it, on what
/// `serde_yaml` read; nothing is stated of it apart from that.
#[verifier::external_body]
fn yaml_of(value: &serde_yaml::Value) -> (r: YamlValue) {
    match value {
        serde_yaml::Value::Null => YamlValue::Null,
        serde_yaml::Value::Bool(b) => YamlValue::Bool(*b),
        serde_yaml::Value::Number(n) => YamlValue::Number(n.to_string()),
        serde_yaml::Value::String(s) => YamlValue::Str(s.clone()),
        serde_yaml::Value::Sequence(items) => YamlValue::Sequence(items.iter().map(yaml_of).collect()),
        serde_yaml::Value::Mapping(m) => YamlValue::Mapping(m.iter().map(|(k, v)| (yaml_of(k), yaml_of(v))).collect()),
        serde_yaml::Value::Tagged(tagged) => yaml_of(&tagged.value),
    }
}

/// Reads a YAML document with `serde_yaml::from_str::<serde_yaml::Value>`:
/// the document, or the `Display` text of the error. The contract claims
/// only that the outcome is the named result of the text.
#[verifier::external_body]
pub(crate) fn parse_yaml(text: &str) -> (r: Result<YamlValue, String>)
    ensures
        match r {
            Ok(v) => yaml_document(text@) == Ok::<YamlView, Seq<char>>(v@),
            Err(m) => yaml_document(text@) == Err::<YamlView, Seq<char>>(m@),
        },
{
    match serde_yaml::from_str::<serde_yaml::Value>(text) {
        Ok(value) => Ok(yaml_of(&value)),
        Err(e) => Err(e.to_string()),
    }
}

} // verus!
