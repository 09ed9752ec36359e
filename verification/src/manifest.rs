//! Manifests: YAML documents that describe workloads and configs, checked
//! against the manifest format.

use vstd::prelude::*;
use crate::errors::AnkaiosError;
use crate::strings::concat;
use crate::workload_dict::{yaml_text, mapping_entries};
use crate::yaml::{
    YamlValue, YamlView, ystr, yaml_document, parse_yaml, yaml_field, pairs_view, lemma_pairs_view_index, lemma_pairs_view_len,
};

verus! {

/// The fields that a workload of a manifest may have.
pub open spec fn allowed_field(f: Seq<char>) -> bool {
    ||| f == "runtime"@
    ||| f == "agent"@
    ||| f == "restartPolicy"@
    ||| f == "runtimeConfig"@
    ||| f == "dependencies"@
    ||| f == "tags"@
    ||| f == "controlInterfaceAccess"@
    ||| f == "configs"@
}

/// The workloads of a manifest: the entries of its `workloads` mapping.
pub open spec fn manifest_workloads(m: YamlView) -> Seq<(YamlView, YamlView)> {
    mapping_entries(yaml_field(m, ystr("workloads"@)))
}

/// The configs of a manifest: the entries of its `configs` mapping.
pub open spec fn manifest_configs(m: YamlView) -> Seq<(YamlView, YamlView)> {
    mapping_entries(yaml_field(m, ystr("configs"@)))
}

/// A workload of a manifest is valid: a mapping whose fields are all allowed
/// and among which runtime, runtimeConfig and agent are.
pub open spec fn workload_entry_valid(w: YamlView) -> bool {
    &&& w matches YamlView::Mapping(fs) && forall|j: int|
        0 <= j < fs.len() ==> allowed_field(yaml_text(#[trigger] fs[j].0))
    &&& yaml_field(w, ystr("runtime"@)) is Some
    &&& yaml_field(w, ystr("runtimeConfig"@)) is Some
    &&& yaml_field(w, ystr("agent"@)) is Some
}

/// A manifest is valid: it has an API version and every workload is valid.
pub open spec fn manifest_valid(m: YamlView) -> bool {
    &&& yaml_field(m, ystr("apiVersion"@)) is Some
    &&& forall|i: int|
        0 <= i < manifest_workloads(m).len() ==> workload_entry_valid(
            #[trigger] manifest_workloads(m)[i].1,
        )
}

/// Every field name that checking the workload reads is a string: the
/// fields are read in order up to the first that is not allowed.
pub open spec fn workload_reads_only_text(w: YamlView) -> bool {
    match w {
        YamlView::Mapping(fs) => forall|j: int|
            0 <= j < fs.len() && (forall|k: int| 0 <= k < j ==> allowed_field(yaml_text(fs[k].0)))
                ==> (#[trigger] fs[j]).0 is Str,
        _ => true,
    }
}

/// Every field name that checking the manifest reads is a string: the
/// workloads are checked in order up to the first that is not valid.
pub open spec fn check_reads_only_text(m: YamlView) -> bool {
    yaml_field(m, ystr("apiVersion"@)) is Some ==> forall|i: int|
        0 <= i < manifest_workloads(m).len() && (forall|k: int|
            0 <= k < i ==> workload_entry_valid(manifest_workloads(m)[k].1))
            ==> workload_reads_only_text(#[trigger] manifest_workloads(m)[i].1)
}

/// The workload names and config names of the manifest are strings.
pub open spec fn names_are_text(m: YamlView) -> bool {
    &&& forall|i: int|
        0 <= i < manifest_workloads(m).len() ==> (#[trigger] manifest_workloads(m)[i]).0 is Str
    &&& forall|i: int|
        0 <= i < manifest_configs(m).len() ==> (#[trigger] manifest_configs(m)[i]).0 is Str
}

/// The update masks of a manifest: one for each workload, then one for each
/// config, in order.
pub open spec fn manifest_masks(m: YamlView) -> Seq<Seq<char>> {
    Seq::new(
        manifest_workloads(m).len(),
        |i: int| "desiredState.workloads."@ + yaml_text(manifest_workloads(m)[i].0),
    ) + Seq::new(
        manifest_configs(m).len(),
        |i: int| "desiredState.configs."@ + yaml_text(manifest_configs(m)[i].0),
    )
}

/// A manifest: a YAML document with an API version, workloads and configs.
#[derive(Debug, PartialEq, Eq)]
pub struct Manifest {
    /// The document.
    pub manifest: YamlValue,
}

/// The text of a string value that is known to be one.
fn key_text(v: &YamlValue) -> (r: &String)
    requires
        v@ is Str,
    ensures
        v@ == ystr(r@),
{
    match v.as_str() {
        Some(s) => s,
        None => vstd::pervasive::unreached(),
    }
}

/// Whether `f` is a field that a workload of a manifest may have.
fn is_allowed_field(f: &str) -> (r: bool)
    ensures
        r == allowed_field(f@),
{
    let names = [
        "runtime",
        "agent",
        "restartPolicy",
        "runtimeConfig",
        "dependencies",
        "tags",
        "controlInterfaceAccess",
        "configs",
    ];
    crate::strings::str_equal(f, names[0]) || crate::strings::str_equal(f, names[1])
        || crate::strings::str_equal(f, names[2]) || crate::strings::str_equal(f, names[3])
        || crate::strings::str_equal(f, names[4]) || crate::strings::str_equal(f, names[5])
        || crate::strings::str_equal(f, names[6]) || crate::strings::str_equal(f, names[7])
}

/// The entries of the mapping under `key`, if the document is a mapping and
/// that value is a mapping.
fn entries_under<'a>(m: &'a YamlValue, key: &str) -> (r: Option<&'a Vec<(YamlValue, YamlValue)>>)
    ensures
        match r {
            Some(es) => pairs_view(es@) == mapping_entries(yaml_field(m@, ystr(key@))),
            None => mapping_entries(yaml_field(m@, ystr(key@))) == Seq::<
                (YamlView, YamlView),
            >::empty(),
        },
{
    match m.get(key) {
        Some(v) => match v.as_mapping() {
            Some(es) => Some(es),
            None => None,
        },
        None => None,
    }
}

/// Whether a workload of a manifest is valid.
fn check_workload(w: &YamlValue) -> (r: bool)
    requires
        workload_reads_only_text(w@),
    ensures
        r == workload_entry_valid(w@),
{
    match w.as_mapping() {
        Some(fields) => {
            let ghost fs = pairs_view(fields@);
            proof {
                lemma_pairs_view_len(fields@);
            }
            let mut j: usize = 0;
            while j < fields.len()
                invariant
                    fs == pairs_view(fields@),
                    fs.len() == fields@.len(),
                    w@ == YamlView::Mapping(fs),
                    workload_reads_only_text(w@),
                    0 <= j <= fields@.len(),
                    forall|k: int| 0 <= k < j ==> allowed_field(yaml_text(#[trigger] fs[k].0)),
                decreases fields@.len() - j,
            {
                proof {
                    lemma_pairs_view_index(fields@, j as int);
                    assert(fs[j as int].0 is Str);
                }
                let name = key_text(&fields[j].0);
                if !is_allowed_field(name.as_str()) {
                    proof {
                        assert(!allowed_field(yaml_text(fs[j as int].0)));
                    }
                    return false;
                }
                j = j + 1;
            }
        },
        None => {
            return false;
        },
    }
    w.get("runtime").is_some() && w.get("runtimeConfig").is_some() && w.get("agent").is_some()
}

/// Only a string names an allowed field.
proof fn lemma_allowed_field_is_text(k: YamlView)
    requires
        allowed_field(yaml_text(k)),
    ensures
        k is Str,
{
    reveal_strlit("runtime");
    reveal_strlit("agent");
    reveal_strlit("restartPolicy");
    reveal_strlit("runtimeConfig");
    reveal_strlit("dependencies");
    reveal_strlit("tags");
    reveal_strlit("controlInterfaceAccess");
    reveal_strlit("configs");
    if !(k is Str) {
        assert(yaml_text(k).len() == 0);
        assert("runtime"@.len() > 0);
        assert("agent"@.len() > 0);
        assert("restartPolicy"@.len() > 0);
        assert("runtimeConfig"@.len() > 0);
        assert("dependencies"@.len() > 0);
        assert("tags"@.len() > 0);
        assert("controlInterfaceAccess"@.len() > 0);
        assert("configs"@.len() > 0);
    }
}

/// Whether every field name that checking the workload `w` reads is a
/// string.
fn workload_fields_readable(w: &YamlValue) -> (r: bool)
    ensures
        r == workload_reads_only_text(w@),
{
    match w.as_mapping() {
        Some(fields) => {
            let ghost fs = pairs_view(fields@);
            proof {
                lemma_pairs_view_len(fields@);
            }
            let mut j: usize = 0;
            while j < fields.len()
                invariant
                    fs == pairs_view(fields@),
                    fs.len() == fields@.len(),
                    w@ == YamlView::Mapping(fs),
                    0 <= j <= fields@.len(),
                    forall|k: int| 0 <= k < j ==> allowed_field(yaml_text(#[trigger] fs[k].0)),
                decreases fields@.len() - j,
            {
                proof {
                    lemma_pairs_view_index(fields@, j as int);
                }
                match fields[j].0.as_str() {
                    Some(name) => {
                        if !is_allowed_field(name.as_str()) {
                            proof {
                                assert forall|x: int|
                                    0 <= x < fs.len() && (forall|k: int|
                                        0 <= k < x ==> allowed_field(yaml_text(fs[k].0)))
                                        implies (#[trigger] fs[x]).0 is Str by {
                                    if x > j {
                                        assert(allowed_field(yaml_text(fs[j as int].0)));
                                    } else if x < j {
                                        lemma_allowed_field_is_text(fs[x].0);
                                    }
                                }
                            }
                            return true;
                        }
                    },
                    None => {
                        return false;
                    },
                }
                j = j + 1;
            }
            proof {
                assert forall|x: int|
                    0 <= x < fs.len() && (forall|k: int|
                        0 <= k < x ==> allowed_field(yaml_text(fs[k].0)))
                        implies (#[trigger] fs[x]).0 is Str by {
                    lemma_allowed_field_is_text(fs[x].0);
                }
            }
            true
        },
        None => true,
    }
}

/// Whether every key of `es` is a string.
fn all_keys_text(es: &Vec<(YamlValue, YamlValue)>) -> (r: bool)
    ensures
        r == forall|i: int| 0 <= i < pairs_view(es@).len() ==> (#[trigger] pairs_view(es@)[i]).0 is Str,
{
    proof {
        lemma_pairs_view_len(es@);
    }
    let mut i: usize = 0;
    while i < es.len()
        invariant
            pairs_view(es@).len() == es@.len(),
            0 <= i <= es@.len(),
            forall|k: int| 0 <= k < i ==> (#[trigger] pairs_view(es@)[k]).0 is Str,
        decreases es@.len() - i,
    {
        proof {
            lemma_pairs_view_index(es@, i as int);
        }
        if es[i].0.as_str().is_none() {
            return false;
        }
        i = i + 1;
    }
    true
}

impl Manifest {
    /// A manifest holding `manifest`; a document that is not a valid
    /// manifest is refused.
    pub fn new(manifest: YamlValue) -> (r: Result<Manifest, AnkaiosError>)
        requires
            check_reads_only_text(manifest@),
        ensures
            r is Ok <==> manifest_valid(manifest@),
            r matches Ok(m) ==> m.manifest@ == manifest@,
            r matches Err(e) ==> e matches AnkaiosError::InvalidManifestError(msg) && msg@
                == "Manifest is not valid"@,
    {
        let obj = Manifest { manifest };
        if !obj.check() {
            return Err(AnkaiosError::InvalidManifestError("Manifest is not valid".to_owned()));
        }
        Ok(obj)
    }

    /// A manifest holding `manifest`, as [`Manifest::new`] makes it.
    pub fn from_dict(manifest: YamlValue) -> (r: Result<Manifest, AnkaiosError>)
        requires
            check_reads_only_text(manifest@),
        ensures
            r is Ok <==> manifest_valid(manifest@),
            r matches Ok(m) ==> m.manifest@ == manifest@,
            r matches Err(e) ==> e matches AnkaiosError::InvalidManifestError(msg) && msg@
                == "Manifest is not valid"@,
    {
        Self::new(manifest)
    }

    /// A manifest read from YAML text. A text that is not a YAML document is
    /// refused with the text of the parse error. A document that a workload
    /// names a field of by other than a string is not a valid manifest (no
    /// such field is allowed); otherwise it is checked as [`Manifest::new`]
    /// checks it.
    pub fn from_string(manifest: &str) -> (r: Result<Manifest, AnkaiosError>)
        ensures
            match yaml_document(manifest@) {
                Err(m) => r matches Err(e) && e matches AnkaiosError::InvalidManifestError(msg)
                    && msg@ == m,
                Ok(d) => {
                    &&& r is Ok <==> check_reads_only_text(d) && manifest_valid(d)
                    &&& r matches Ok(x) ==> x.manifest@ == d
                    &&& r matches Err(e) ==> e matches AnkaiosError::InvalidManifestError(msg)
                        && msg@ == "Manifest is not valid"@
                },
            },
    {
        match parse_yaml(manifest) {
            Ok(document) => {
                if Self::reads_only_text(&document) {
                    Self::from_dict(document)
                } else {
                    Err(AnkaiosError::InvalidManifestError("Manifest is not valid".to_owned()))
                }
            },
            Err(m) => Err(AnkaiosError::InvalidManifestError(m)),
        }
    }

    /// Whether the document is a valid manifest. A mapping read from YAML
    /// holds each key once, so each workload is the value of its entry.
    pub fn check(&self) -> (r: bool)
        requires
            check_reads_only_text(self.manifest@),
        ensures
            r == manifest_valid(self.manifest@),
    {
        if self.manifest.get("apiVersion").is_none() {
            return false;
        }
        let ghost m = self.manifest@;
        match entries_under(&self.manifest, "workloads") {
            Some(ws) => {
                proof {
                    lemma_pairs_view_len(ws@);
                }
                let mut i: usize = 0;
                while i < ws.len()
                    invariant
                        m == self.manifest@,
                        pairs_view(ws@) == manifest_workloads(m),
                        pairs_view(ws@).len() == ws@.len(),
                        check_reads_only_text(m),
                        yaml_field(m, ystr("apiVersion"@)) is Some,
                        0 <= i <= ws@.len(),
                        forall|k: int|
                            0 <= k < i ==> workload_entry_valid(
                                #[trigger] manifest_workloads(m)[k].1,
                            ),
                    decreases ws@.len() - i,
                {
                    proof {
                        lemma_pairs_view_index(ws@, i as int);
                        assert(ws@[i as int].1@ == manifest_workloads(m)[i as int].1);
                        assert(workload_reads_only_text(manifest_workloads(m)[i as int].1));
                    }
                    if !check_workload(&ws[i].1) {
                        return false;
                    }
                    i = i + 1;
                }
            },
            None => {},
        }
        true
    }

    /// Whether every field name that [`Manifest::check`] reads in
    /// `manifest` is a string, as checking it needs.
    pub fn reads_only_text(manifest: &YamlValue) -> (r: bool)
        ensures
            r == check_reads_only_text(manifest@),
    {
        if manifest.get("apiVersion").is_none() {
            return true;
        }
        let ghost m = manifest@;
        match entries_under(manifest, "workloads") {
            Some(ws) => {
                proof {
                    lemma_pairs_view_len(ws@);
                }
                let mut i: usize = 0;
                while i < ws.len()
                    invariant
                        m == manifest@,
                        pairs_view(ws@) == manifest_workloads(m),
                        pairs_view(ws@).len() == ws@.len(),
                        yaml_field(m, ystr("apiVersion"@)) is Some,
                        0 <= i <= ws@.len(),
                        forall|k: int|
                            0 <= k < i ==> workload_entry_valid(
                                #[trigger] manifest_workloads(m)[k].1,
                            ) && workload_reads_only_text(manifest_workloads(m)[k].1),
                    decreases ws@.len() - i,
                {
                    proof {
                        lemma_pairs_view_index(ws@, i as int);
                        assert(ws@[i as int].1@ == manifest_workloads(m)[i as int].1);
                    }
                    if !workload_fields_readable(&ws[i].1) {
                        return false;
                    }
                    if !check_workload(&ws[i].1) {
                        proof {
                            assert forall|x: int|
                                0 <= x < manifest_workloads(m).len() && (forall|k: int|
                                    0 <= k < x ==> workload_entry_valid(manifest_workloads(m)[k].1))
                                    implies workload_reads_only_text(
                                    #[trigger] manifest_workloads(m)[x].1,
                                ) by {
                                if x > i {
                                    assert(workload_entry_valid(manifest_workloads(m)[i as int].1));
                                }
                            }
                        }
                        return true;
                    }
                    i = i + 1;
                }
            },
            None => {},
        }
        true
    }

    /// Whether the workload names and config names of `manifest` are
    /// strings, as [`Manifest::calculate_masks`] needs.
    pub fn has_text_names(manifest: &YamlValue) -> (r: bool)
        ensures
            r == names_are_text(manifest@),
    {
        let ghost m = manifest@;
        let ws_ok = match entries_under(manifest, "workloads") {
            Some(ws) => all_keys_text(ws),
            None => true,
        };
        let cs_ok = match entries_under(manifest, "configs") {
            Some(cs) => all_keys_text(cs),
            None => true,
        };
        ws_ok && cs_ok
    }

    /// The masks that apply or delete the manifest: one for each workload,
    /// then one for each config.
    pub fn calculate_masks(&self) -> (r: Vec<String>)
        requires
            names_are_text(self.manifest@),
        ensures
            r.deep_view() == manifest_masks(self.manifest@),
    {
        let ghost m = self.manifest@;
        let ghost wl_masks = Seq::new(
            manifest_workloads(m).len(),
            |i: int| "desiredState.workloads."@ + yaml_text(manifest_workloads(m)[i].0),
        );
        let ghost cfg_masks = Seq::new(
            manifest_configs(m).len(),
            |i: int| "desiredState.configs."@ + yaml_text(manifest_configs(m)[i].0),
        );
        let mut masks: Vec<String> = Vec::new();
        match entries_under(&self.manifest, "workloads") {
            Some(ws) => {
                proof {
                    lemma_pairs_view_len(ws@);
                }
                let mut i: usize = 0;
                while i < ws.len()
                    invariant
                        m == self.manifest@,
                        names_are_text(m),
                        pairs_view(ws@) == manifest_workloads(m),
                        pairs_view(ws@).len() == ws@.len(),
                        wl_masks == Seq::new(
                            manifest_workloads(m).len(),
                            |k: int| "desiredState.workloads."@ + yaml_text(manifest_workloads(m)[k].0),
                        ),
                        0 <= i <= ws@.len(),
                        masks.deep_view() == wl_masks.take(i as int),
                    decreases ws@.len() - i,
                {
                    proof {
                        lemma_pairs_view_index(ws@, i as int);
                        assert(manifest_workloads(m)[i as int].0 is Str);
                    }
                    let name = key_text(&ws[i].0);
                    let mask = concat("desiredState.workloads.", name.as_str());
                    let ghost prev = masks.deep_view();
                    masks.push(mask);
                    proof {
                        assert(masks.deep_view() =~= prev.push(mask@));
                        assert(masks.deep_view() =~= wl_masks.take(i + 1));
                    }
                    i = i + 1;
                }
                proof {
                    assert(wl_masks.take(i as int) =~= wl_masks);
                }
            },
            None => {
                proof {
                    assert(masks.deep_view() =~= wl_masks);
                }
            },
        }
        let ghost after_workloads = masks.deep_view();
        match entries_under(&self.manifest, "configs") {
            Some(cs) => {
                proof {
                    lemma_pairs_view_len(cs@);
                }
                let mut i: usize = 0;
                while i < cs.len()
                    invariant
                        m == self.manifest@,
                        names_are_text(m),
                        pairs_view(cs@) == manifest_configs(m),
                        pairs_view(cs@).len() == cs@.len(),
                        cfg_masks == Seq::new(
                            manifest_configs(m).len(),
                            |k: int| "desiredState.configs."@ + yaml_text(manifest_configs(m)[k].0),
                        ),
                        0 <= i <= cs@.len(),
                        masks.deep_view() == after_workloads + cfg_masks.take(i as int),
                    decreases cs@.len() - i,
                {
                    proof {
                        lemma_pairs_view_index(cs@, i as int);
                        assert(manifest_configs(m)[i as int].0 is Str);
                    }
                    let name = key_text(&cs[i].0);
                    let mask = concat("desiredState.configs.", name.as_str());
                    let ghost prev = masks.deep_view();
                    masks.push(mask);
                    proof {
                        assert(masks.deep_view() =~= prev.push(mask@));
                        assert(masks.deep_view() =~= after_workloads + cfg_masks.take(i + 1));
                    }
                    i = i + 1;
                }
                proof {
                    assert(cfg_masks.take(i as int) =~= cfg_masks);
                }
            },
            None => {
                proof {
                    assert(masks.deep_view() =~= after_workloads + cfg_masks);
                }
            },
        }
        masks
    }

    /// The document of the manifest.
    pub fn to_dict(&self) -> (r: YamlValue)
        ensures
            r@ == self.manifest@,
    {
        self.manifest.duplicate()
    }
}

} // verus!
