//! Files that can be mounted into a workload.

use vstd::prelude::*;
use crate::ank_base;
use crate::errors::AnkaiosError;
use crate::yaml::{
    YamlValue, YamlView, ystr, yaml_get, yaml_as_str, pairs_view, mapping_get,
    lemma_pairs_view_push,
};

verus! {

/// The content of a [`File`]: text, or base64-encoded binary data.
#[derive(Debug, PartialEq, Eq)]
pub enum FileContent {
    /// Text content.
    Text(String),
    /// Binary content, base64-encoded.
    Binary(String),
}

/// A file that is mounted into a workload's container at `mount_point`.
#[derive(Debug, PartialEq, Eq)]
pub struct File {
    /// The path at which the file is mounted.
    pub mount_point: String,
    /// The content of the file.
    pub content: FileContent,
}

/// The mapping form of a file: its mount point under `mount_point`, and its
/// content under `data` (text) or `binaryData` (binary).
pub open spec fn file_dict(f: File) -> YamlView {
    YamlView::Mapping(
        seq![
            (ystr("mount_point"@), ystr(f.mount_point@)),
            match f.content {
                FileContent::Text(c) => (ystr("data"@), ystr(c@)),
                FileContent::Binary(c) => (ystr("binaryData"@), ystr(c@)),
            },
        ],
    )
}

/// What reading a file from the mapping `d` gives: the mount point, whether
/// the content is text, and the content; or the message of the error.
pub open spec fn file_from_dict_spec(d: Seq<(YamlView, YamlView)>) -> Result<
    (Seq<char>, bool, Seq<char>),
    Seq<char>,
> {
    let mount_point = yaml_as_str(yaml_get(d, ystr("mount_point"@)));
    let text = yaml_get(d, ystr("data"@));
    let binary = yaml_get(d, ystr("binaryData"@));
    if mount_point is None {
        Err("Missing mount_point"@)
    } else if text is Some && binary is None {
        match yaml_as_str(text) {
            Some(c) => Ok((mount_point.unwrap(), true, c)),
            None => Err("Invalid text content"@),
        }
    } else if text is None && binary is Some {
        match yaml_as_str(binary) {
            Some(c) => Ok((mount_point.unwrap(), false, c)),
            None => Err("Invalid binary content"@),
        }
    } else if text is Some && binary is Some {
        Err("File cannot have both text and binary content"@)
    } else {
        Err("File must have either text or binary content"@)
    }
}

/// The number of bytes of the UTF-8 form of `s`.
pub open spec fn byte_len(s: Seq<char>) -> nat {
    vstd::utf8::encode_utf8(s).len()
}

/// How the text content `c` is shown: whole when its UTF-8 form has at most
/// 50 bytes, otherwise the text of its first 50 bytes followed by `...`.
pub open spec fn shown_text(c: Seq<char>, shown: Seq<char>) -> bool {
    if byte_len(c) <= 50 {
        shown == c
    } else {
        exists|prefix: Seq<char>|
            vstd::utf8::encode_utf8(prefix) == vstd::utf8::encode_utf8(c).subrange(0, 50) && shown
                == prefix + "..."@
    }
}

/// The text of a file: its kind, its mount point, its content (text only,
/// see [`shown_text`]) and its size in bytes.
pub open spec fn file_text(f: File, shown: Seq<char>) -> Seq<char> {
    match f.content {
        FileContent::Text(c) => "File(text): "@ + f.mount_point@ + " -> "@ + shown + " ("@
            + crate::strings::decimal(byte_len(c@)) + " bytes)"@,
        FileContent::Binary(c) => "File(binary): "@ + f.mount_point@ + " -> base64 data ("@
            + crate::strings::decimal(byte_len(c@)) + " bytes)"@,
    }
}

impl File {
    /// Whether the content is text.
    pub open spec fn text(&self) -> bool {
        self.content is Text
    }

    /// The content, text or binary.
    pub open spec fn data(&self) -> Seq<char> {
        match self.content {
            FileContent::Text(c) => c@,
            FileContent::Binary(c) => c@,
        }
    }

    /// A file with text content.
    pub fn from_text(mount_point: &str, content: &str) -> (r: Self)
        ensures
            r.mount_point@ == mount_point@,
            r.text(),
            r.data() == content@,
    {
        File { mount_point: mount_point.to_owned(), content: FileContent::Text(content.to_owned()) }
    }

    /// A file with binary (base64-encoded) content.
    pub fn from_binary(mount_point: &str, content: &str) -> (r: Self)
        ensures
            r.mount_point@ == mount_point@,
            !r.text(),
            r.data() == content@,
    {
        File {
            mount_point: mount_point.to_owned(),
            content: FileContent::Binary(content.to_owned()),
        }
    }

    /// The text of the file: its kind, its mount point, its text content
    /// (cut after its first 50 bytes) and its size in bytes.
    pub fn to_string(&self) -> (r: String)
        requires
            byte_len(self.data()) <= usize::MAX,
            (self.content matches FileContent::Text(c) ==> (byte_len(c@) > 50
                ==> vstd::utf8::is_char_boundary(vstd::utf8::encode_utf8(c@), 50))),
        ensures
            (exists|shown: Seq<char>|
                (self.content matches FileContent::Text(c) ==> shown_text(c@, shown)) && r@
                    == file_text(*self, shown)),
    {
        match &self.content {
            FileContent::Text(c) => {
                let text = c.as_str();
                let n = text.len();
                proof {
                    assert(n as nat == byte_len(c@));
                }
                let mut s = "File(text): ".to_owned();
                s.append(self.mount_point.as_str());
                s.append(" -> ");
                let ghost shown: Seq<char>;
                if n > 50 {
                    let (prefix, _) = text.split_at(50);
                    s.append(prefix);
                    s.append("...");
                    proof {
                        shown = prefix@ + "..."@;
                    }
                } else {
                    s.append(text);
                    proof {
                        shown = c@;
                    }
                }
                s.append(" (");
                let size = crate::strings::u64_to_text(n as u64);
                s.append(size.as_str());
                s.append(" bytes)");
                proof {
                    assert(s@ == file_text(*self, shown));
                }
                s
            },
            FileContent::Binary(c) => {
                let n = c.as_str().len();
                proof {
                    assert(n as nat == byte_len(c@));
                }
                let mut s = "File(binary): ".to_owned();
                s.append(self.mount_point.as_str());
                s.append(" -> base64 data (");
                let size = crate::strings::u64_to_text(n as u64);
                s.append(size.as_str());
                s.append(" bytes)");
                proof {
                    assert(s@ == file_text(*self, Seq::empty()));
                }
                s
            },
        }
    }

    /// The path at which the file is mounted.
    pub fn mount_point(&self) -> (r: &str)
        ensures
            r@ == self.mount_point@,
    {
        self.mount_point.as_str()
    }

    /// The content if it is text.
    pub fn text_content(&self) -> (r: Option<&str>)
        ensures
            match r {
                Some(c) => self.text() && c@ == self.data(),
                None => !self.text(),
            },
    {
        match &self.content {
            FileContent::Text(c) => Some(c.as_str()),
            FileContent::Binary(_) => None,
        }
    }

    /// The content if it is binary.
    pub fn binary_content(&self) -> (r: Option<&str>)
        ensures
            match r {
                Some(c) => !self.text() && c@ == self.data(),
                None => self.text(),
            },
    {
        match &self.content {
            FileContent::Binary(c) => Some(c.as_str()),
            FileContent::Text(_) => None,
        }
    }

    /// Whether the content is text.
    pub fn is_text(&self) -> (r: bool)
        ensures
            r == self.text(),
    {
        match &self.content {
            FileContent::Text(_) => true,
            FileContent::Binary(_) => false,
        }
    }

    /// Whether the content is binary.
    pub fn is_binary(&self) -> (r: bool)
        ensures
            r == !self.text(),
    {
        match &self.content {
            FileContent::Binary(_) => true,
            FileContent::Text(_) => false,
        }
    }

    /// A copy of this file.
    pub fn duplicate(&self) -> (r: Self)
        ensures
            r == *self,
    {
        File {
            mount_point: self.mount_point.clone(),
            content: match &self.content {
                FileContent::Text(c) => FileContent::Text(c.clone()),
                FileContent::Binary(c) => FileContent::Binary(c.clone()),
            },
        }
    }

    /// The file as a mapping: its mount point under `mount_point` and its
    /// content under `data` or `binaryData`.
    pub fn to_dict(&self) -> (r: YamlValue)
        ensures
            r@ == file_dict(*self),
    {
        let mut entries: Vec<(YamlValue, YamlValue)> = Vec::new();
        let k1 = YamlValue::from_str_slice("mount_point");
        let v1 = YamlValue::from_string(self.mount_point.clone());
        proof {
            lemma_pairs_view_push(entries@, k1, v1);
        }
        entries.push((k1, v1));
        let (k2, v2) = match &self.content {
            FileContent::Text(c) => (
                YamlValue::from_str_slice("data"),
                YamlValue::from_string(c.clone()),
            ),
            FileContent::Binary(c) => (
                YamlValue::from_str_slice("binaryData"),
                YamlValue::from_string(c.clone()),
            ),
        };
        proof {
            lemma_pairs_view_push(entries@, k2, v2);
            assert(pairs_view(Seq::<(YamlValue, YamlValue)>::empty()) =~= Seq::empty());
        }
        entries.push((k2, v2));
        proof {
            let expected = match file_dict(*self) {
                YamlView::Mapping(s) => s,
                _ => Seq::empty(),
            };
            assert(pairs_view(entries@) =~= expected);
        }
        YamlValue::from_entries(entries)
    }

    /// Reads a file from its mapping form.
    ///
    /// Fails with a field error on `file` when the mount point is missing,
    /// when the mapping holds both or neither of text and binary content, or
    /// when the content is not a string.
    pub fn from_dict(dict: &Vec<(YamlValue, YamlValue)>) -> (r: Result<Self, AnkaiosError>)
        ensures
            match (r, file_from_dict_spec(pairs_view(dict@))) {
                (Ok(f), Ok((mount_point, text, content))) => f.mount_point@ == mount_point
                    && f.text() == text && f.data() == content,
                (Err(AnkaiosError::WorkloadFieldError(field, msg)), Err(m)) => field@ == "file"@
                    && msg@ == m,
                _ => false,
            },
    {
        let mount_point = match mapping_get(dict, "mount_point") {
            Some(v) => match v.as_str() {
                Some(s) => s.clone(),
                None => {
                    return Err(
                        AnkaiosError::WorkloadFieldError(
                            "file".to_owned(),
                            "Missing mount_point".to_owned(),
                        ),
                    )
                },
            },
            None => {
                return Err(
                    AnkaiosError::WorkloadFieldError(
                        "file".to_owned(),
                        "Missing mount_point".to_owned(),
                    ),
                )
            },
        };
        let text = mapping_get(dict, "data");
        let binary = mapping_get(dict, "binaryData");
        match (text, binary) {
            (Some(t), None) => match t.as_str() {
                Some(c) => Ok(
                    File { mount_point, content: FileContent::Text(c.clone()) },
                ),
                None => Err(
                    AnkaiosError::WorkloadFieldError(
                        "file".to_owned(),
                        "Invalid text content".to_owned(),
                    ),
                ),
            },
            (None, Some(b)) => match b.as_str() {
                Some(c) => Ok(
                    File { mount_point, content: FileContent::Binary(c.clone()) },
                ),
                None => Err(
                    AnkaiosError::WorkloadFieldError(
                        "file".to_owned(),
                        "Invalid binary content".to_owned(),
                    ),
                ),
            },
            (Some(_), Some(_)) => Err(
                AnkaiosError::WorkloadFieldError(
                    "file".to_owned(),
                    "File cannot have both text and binary content".to_owned(),
                ),
            ),
            (None, None) => Err(
                AnkaiosError::WorkloadFieldError(
                    "file".to_owned(),
                    "File must have either text or binary content".to_owned(),
                ),
            ),
        }
    }

    /// The protocol form of this file.
    pub fn to_proto(&self) -> (r: ank_base::File)
        ensures
            r.mount_point == self.mount_point,
            match (self.content, r.file_content) {
                (FileContent::Text(c), Some(ank_base::FileContent::Data(d))) => c == d,
                (FileContent::Binary(c), Some(ank_base::FileContent::BinaryData(d))) => c == d,
                _ => false,
            },
    {
        let file_content = match &self.content {
            FileContent::Text(data) => Some(ank_base::FileContent::Data(data.clone())),
            FileContent::Binary(data) => Some(ank_base::FileContent::BinaryData(data.clone())),
        };
        ank_base::File { mount_point: self.mount_point.clone(), file_content }
    }

    /// The file carried by a protocol message. A message without content
    /// gives an empty text file.
    pub fn from_proto(file: ank_base::File) -> (r: Self)
        ensures
            r.mount_point == file.mount_point,
            match (file.file_content, r.content) {
                (Some(ank_base::FileContent::Data(d)), FileContent::Text(c)) => c == d,
                (Some(ank_base::FileContent::BinaryData(d)), FileContent::Binary(c)) => c == d,
                (None, FileContent::Text(c)) => c@.len() == 0,
                _ => false,
            },
    {
        match file.file_content {
            Some(ank_base::FileContent::Data(data)) => File {
                mount_point: file.mount_point,
                content: FileContent::Text(data),
            },
            Some(ank_base::FileContent::BinaryData(data)) => File {
                mount_point: file.mount_point,
                content: FileContent::Binary(data),
            },
            None => File { mount_point: file.mount_point, content: FileContent::Text(String::new()) },
        }
    }
}

} // verus!
