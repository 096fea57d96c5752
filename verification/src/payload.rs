//! The stored record and its codec.
//!
//! A [`CodePayload`] is what the engine stores beside each vector and gets
//! back from every search hit.  [`CodePayload::into_qdrant`] writes the
//! persisted fields into the index's generic field map; [`parse_payload`]
//! reads such a map back, together with the identifier, vector and score the
//! index returns.  Ephemeral fields (`id`, `embedding`, `score`) are never
//! written and are filled only on read.

use vstd::prelude::*;
use crate::errors::SemanticError;
use crate::json::{
    obj_get, obj_get_str, obj_view, spec_as_str, spec_obj_get, JsonData, JsonValue,
};
use crate::strutil::{
    chars_of, dec_val, is_dec_digits, parse_u64, spec_lower, spec_u64_dec, str_eq, string_eq_str,
    to_ascii_lower, u64_to_dec,
};

verus! {

/// The kind of a stored record.
#[derive(Clone, Copy, Debug, PartialEq, Eq, Structural)]
pub enum PayloadType {
    Code,
    Comment,
    Doc,
    HttpApi,
    OpenApi,
    DatabaseMap,
}

impl Default for PayloadType {
    /// An absent or unrecognized kind falls back to `Code`.
    fn default() -> (r: PayloadType)
        ensures
            r == PayloadType::Code,
    {
        PayloadType::Code
    }
}

/// The stored name of each payload kind.
pub open spec fn spec_payload_name(t: PayloadType) -> Seq<char> {
    match t {
        PayloadType::Code => "code"@,
        PayloadType::Comment => "comment"@,
        PayloadType::Doc => "doc"@,
        PayloadType::HttpApi => "http_api"@,
        PayloadType::OpenApi => "open_api"@,
        PayloadType::DatabaseMap => "database_map"@,
    }
}

/// The kind a stored name maps back to; anything unrecognized is `Code`.
pub open spec fn spec_payload_type_of(s: Seq<char>) -> PayloadType {
    if s == "code"@ {
        PayloadType::Code
    } else if s == "comment"@ {
        PayloadType::Comment
    } else if s == "doc"@ {
        PayloadType::Doc
    } else if s == "http_api"@ {
        PayloadType::HttpApi
    } else if s == "open_api"@ {
        PayloadType::OpenApi
    } else if s == "database_map"@ {
        PayloadType::DatabaseMap
    } else {
        PayloadType::Code
    }
}

impl PayloadType {
    /// The kind a stored name maps to.
    pub fn from_str(s: &str) -> (r: PayloadType)
        ensures
            r == spec_payload_type_of(s@),
    {
        if str_eq(s, "code") {
            PayloadType::Code
        } else if str_eq(s, "comment") {
            PayloadType::Comment
        } else if str_eq(s, "doc") {
            PayloadType::Doc
        } else if str_eq(s, "http_api") {
            PayloadType::HttpApi
        } else if str_eq(s, "open_api") {
            PayloadType::OpenApi
        } else if str_eq(s, "database_map") {
            PayloadType::DatabaseMap
        } else {
            PayloadType::Code
        }
    }

    /// The stored name of this kind, in place of a `Display` implementation.
    pub fn name(&self) -> (r: String)
        ensures
            r@ == spec_payload_name(*self),
    {
        match self {
            PayloadType::Code => "code".to_owned(),
            PayloadType::Comment => "comment".to_owned(),
            PayloadType::Doc => "doc".to_owned(),
            PayloadType::HttpApi => "http_api".to_owned(),
            PayloadType::OpenApi => "open_api".to_owned(),
            PayloadType::DatabaseMap => "database_map".to_owned(),
        }
    }

    /// The generic index value of this kind.
    pub fn into_value(self) -> (r: JsonValue)
        ensures
            r@ == JsonData::Str(spec_payload_name(self)),
    {
        JsonValue::Str(self.name())
    }
}

/// Naming a kind and reading the name back yields the kind again.
pub proof fn lemma_payload_type_round_trip(t: PayloadType)
    ensures
        spec_payload_type_of(spec_payload_name(t)) == t,
{
    reveal_strlit("code");
    reveal_strlit("comment");
    reveal_strlit("doc");
    reveal_strlit("http_api");
    reveal_strlit("open_api");
    reveal_strlit("database_map");
    assert("code"@.len() == 4);
    assert("comment"@.len() == 7);
    assert("doc"@.len() == 3);
    assert("http_api"@.len() == 8);
    assert("open_api"@.len() == 8);
    assert("database_map"@.len() == 12);
    assert("http_api"@[0] == 'h' && "open_api"@[0] == 'o');
}

/// A stored or retrieved record.  The fields through `branches` are
/// persisted; `id`, `embedding` and `score` exist only on retrieved records.
///
/// Scores and embedding components are fixed-point values: the engine keeps
/// similarity arithmetic in scaled integers (see the ranking module).
#[derive(Clone, Debug)]
pub struct CodePayload {
    pub lang: String,
    pub repo_name: String,
    pub repo_ref: String,
    pub payload_type: PayloadType,
    pub relative_path: String,
    pub content_hash: String,
    pub display_text: String,
    pub origin_text: String,
    pub start_line: u64,
    pub end_line: u64,
    pub start_byte: u64,
    pub end_byte: u64,
    pub branches: Vec<String>,
    pub id: Option<String>,
    pub embedding: Option<Vec<i64>>,
    pub score: Option<i64>,
}

/// The mathematical content of a record.
pub ghost struct PayloadData {
    pub lang: Seq<char>,
    pub repo_name: Seq<char>,
    pub repo_ref: Seq<char>,
    pub payload_type: PayloadType,
    pub relative_path: Seq<char>,
    pub content_hash: Seq<char>,
    pub display_text: Seq<char>,
    pub origin_text: Seq<char>,
    pub start_line: u64,
    pub end_line: u64,
    pub start_byte: u64,
    pub end_byte: u64,
    pub branches: Seq<Seq<char>>,
    pub id: Option<Seq<char>>,
    pub embedding: Option<Seq<i64>>,
    pub score: Option<i64>,
}

/// The views of a sequence of strings.
pub open spec fn strs_view(v: Seq<String>) -> Seq<Seq<char>> {
    v.map_values(|s: String| s@)
}

impl View for CodePayload {
    type V = PayloadData;

    open spec fn view(&self) -> PayloadData {
        PayloadData {
            lang: self.lang@,
            repo_name: self.repo_name@,
            repo_ref: self.repo_ref@,
            payload_type: self.payload_type,
            relative_path: self.relative_path@,
            content_hash: self.content_hash@,
            display_text: self.display_text@,
            origin_text: self.origin_text@,
            start_line: self.start_line,
            end_line: self.end_line,
            start_byte: self.start_byte,
            end_byte: self.end_byte,
            branches: strs_view(self.branches@),
            id: match self.id {
                Some(s) => Some(s@),
                None => None,
            },
            embedding: match self.embedding {
                Some(e) => Some(e@),
                None => None,
            },
            score: self.score,
        }
    }
}

/// Equality of the persisted fields; the ephemeral fields take no part, as
/// two reads of one record may differ in score.
pub open spec fn persisted_eq(a: PayloadData, b: PayloadData) -> bool {
    &&& a.lang == b.lang
    &&& a.repo_name == b.repo_name
    &&& a.repo_ref == b.repo_ref
    &&& a.payload_type == b.payload_type
    &&& a.relative_path == b.relative_path
    &&& a.content_hash == b.content_hash
    &&& a.display_text == b.display_text
    &&& a.origin_text == b.origin_text
    &&& a.start_line == b.start_line
    &&& a.end_line == b.end_line
    &&& a.start_byte == b.start_byte
    &&& a.end_byte == b.end_byte
    &&& a.branches == b.branches
}

fn vec_string_eq(a: &Vec<String>, b: &Vec<String>) -> (r: bool)
    ensures
        r == (strs_view(a@) == strs_view(b@)),
{
    if a.len() != b.len() {
        assert(strs_view(a@).len() != strs_view(b@).len());
        return false;
    }
    let mut i: usize = 0;
    while i < a.len()
        invariant
            a@.len() == b@.len(),
            i <= a@.len(),
            forall|j: int| 0 <= j < i ==> #[trigger] a@[j]@ == b@[j]@,
        decreases a@.len() - i,
    {
        if !string_eq_str(&a[i], b[i].as_str()) {
            assert(strs_view(a@)[i as int] != strs_view(b@)[i as int]);
            return false;
        }
        i = i + 1;
    }
    assert(strs_view(a@) =~= strs_view(b@));
    true
}

impl PartialEq for CodePayload {
    /// Two records are equal when every persisted field is; the ephemeral
    /// fields take no part.
    fn eq(&self, other: &Self) -> (r: bool)
    {
        string_eq_str(&self.lang, other.lang.as_str())
            && string_eq_str(&self.repo_name, other.repo_name.as_str())
            && string_eq_str(&self.repo_ref, other.repo_ref.as_str())
            && self.payload_type == other.payload_type
            && string_eq_str(&self.relative_path, other.relative_path.as_str())
            && string_eq_str(&self.content_hash, other.content_hash.as_str())
            && string_eq_str(&self.display_text, other.display_text.as_str())
            && string_eq_str(&self.origin_text, other.origin_text.as_str())
            && self.start_line == other.start_line
            && self.end_line == other.end_line
            && self.start_byte == other.start_byte
            && self.end_byte == other.end_byte
            && vec_string_eq(&self.branches, &other.branches)
    }
}

impl vstd::std_specs::cmp::PartialEqSpecImpl for CodePayload {
    open spec fn obeys_eq_spec() -> bool {
        true
    }

    open spec fn eq_spec(&self, other: &CodePayload) -> bool {
        persisted_eq(self@, other@)
    }
}

/// The field map that writing a record to the index produces: every persisted
/// field serialized to the generic value type, the language tag lower-cased,
/// the legacy line and byte numbers as their decimal text.
pub open spec fn spec_encode(d: PayloadData) -> Seq<(Seq<char>, JsonData)> {
    seq![
        ("lang"@, JsonData::Str(spec_lower(d.lang))),
        ("repo_name"@, JsonData::Str(d.repo_name)),
        ("repo_ref"@, JsonData::Str(d.repo_ref)),
        ("payload_type"@, JsonData::Str(spec_payload_name(d.payload_type))),
        ("relative_path"@, JsonData::Str(d.relative_path)),
        ("content_hash"@, JsonData::Str(d.content_hash)),
        ("display_text"@, JsonData::Str(d.display_text)),
        ("origin_text"@, JsonData::Str(d.origin_text)),
        ("start_line"@, JsonData::Str(spec_u64_dec(d.start_line as int))),
        ("end_line"@, JsonData::Str(spec_u64_dec(d.end_line as int))),
        ("start_byte"@, JsonData::Str(spec_u64_dec(d.start_byte as int))),
        ("end_byte"@, JsonData::Str(spec_u64_dec(d.end_byte as int))),
        ("branches"@, JsonData::Arr(d.branches.map_values(|b: Seq<char>| JsonData::Str(b)))),
    ]
}

impl CodePayload {
    /// Serializes the persisted fields for an upsert; ephemeral fields are
    /// dropped.
    pub fn into_qdrant(&self) -> (r: Vec<(String, JsonValue)>)
        ensures
            obj_view(r@) == spec_encode(self@),
    {
        let mut r: Vec<(String, JsonValue)> = Vec::new();
        r.push(("lang".to_owned(), JsonValue::Str(to_ascii_lower(self.lang.as_str()))));
        r.push(("repo_name".to_owned(), JsonValue::Str(self.repo_name.clone())));
        r.push(("repo_ref".to_owned(), JsonValue::Str(self.repo_ref.clone())));
        r.push(("payload_type".to_owned(), self.payload_type.into_value()));
        r.push(("relative_path".to_owned(), JsonValue::Str(self.relative_path.clone())));
        r.push(("content_hash".to_owned(), JsonValue::Str(self.content_hash.clone())));
        r.push(("display_text".to_owned(), JsonValue::Str(self.display_text.clone())));
        r.push(("origin_text".to_owned(), JsonValue::Str(self.origin_text.clone())));
        r.push(("start_line".to_owned(), JsonValue::Str(u64_to_dec(self.start_line))));
        r.push(("end_line".to_owned(), JsonValue::Str(u64_to_dec(self.end_line))));
        r.push(("start_byte".to_owned(), JsonValue::Str(u64_to_dec(self.start_byte))));
        r.push(("end_byte".to_owned(), JsonValue::Str(u64_to_dec(self.end_byte))));
        let mut bs: Vec<JsonValue> = Vec::new();
        let mut i: usize = 0;
        while i < self.branches.len()
            invariant
                i <= self.branches@.len(),
                bs@.len() == i,
                forall|j: int| 0 <= j < i ==> #[trigger] bs@[j] == JsonValue::Str(
                    self.branches@[j],
                ),
            decreases self.branches@.len() - i,
        {
            bs.push(JsonValue::Str(self.branches[i].clone()));
            i = i + 1;
        }
        let ghost bseq = bs@;
        r.push(("branches".to_owned(), JsonValue::Arr(bs)));
        proof {
            let enc = spec_encode(self@);
            assert(enc.len() == 13);
            assert(enc[12].0 == "branches"@);
            assert(enc[12].1 == JsonData::Arr(
                self@.branches.map_values(|b: Seq<char>| JsonData::Str(b)),
            ));
            assert(r@[12].1 matches JsonValue::Arr(b2) && b2@ == bseq);
            assert forall|j: int| 0 <= j < bseq.len() implies crate::json::json_view(bseq[j])
                == JsonData::Str(strs_view(self.branches@)[j]) by {
                assert(bseq[j] == JsonValue::Str(self.branches@[j]));
            }
            assert(crate::json::json_view(r@[12].1)->Arr_0 =~= enc[12].1->Arr_0);
            assert forall|k: int| 0 <= k < enc.len() implies obj_view(r@)[k] == enc[k] by {
            }
            assert(obj_view(r@) =~= enc);
        }
        r
    }
}

/// A character of the hyphenated identifier form: a hexadecimal digit.
pub open spec fn is_hex_char(c: char) -> bool {
    ('0' <= c && c <= '9') || ('a' <= c && c <= 'f') || ('A' <= c && c <= 'F')
}

/// A well-formed identifier: 36 characters, hyphens after the 8th, 12th, 16th
/// and 20th digit, hexadecimal digits elsewhere.
pub open spec fn is_uuid_text(s: Seq<char>) -> bool {
    &&& s.len() == 36
    &&& forall|i: int|
        0 <= i < 36 ==> (if i == 8 || i == 13 || i == 18 || i == 23 {
            #[trigger] s[i] == '-'
        } else {
            is_hex_char(s[i])
        })
}

/// Checks the identifier shape.
pub fn check_uuid_text(s: &String) -> (r: bool)
    ensures
        r == is_uuid_text(s@),
{
    let cs = chars_of(s.as_str());
    if cs.len() != 36 {
        return false;
    }
    let mut i: usize = 0;
    while i < 36
        invariant
            cs@ == s@,
            s@.len() == 36,
            i <= 36,
            forall|j: int|
                0 <= j < i ==> (if j == 8 || j == 13 || j == 18 || j == 23 {
                    #[trigger] s@[j] == '-'
                } else {
                    is_hex_char(s@[j])
                }),
        decreases 36 - i,
    {
        let c = cs[i];
        if i == 8 || i == 13 || i == 18 || i == 23 {
            if c != '-' {
                return false;
            }
        } else {
            if !(('0' <= c && c <= '9') || ('a' <= c && c <= 'f') || ('A' <= c && c <= 'F')) {
                return false;
            }
        }
        i = i + 1;
    }
    true
}

/// The strings of a sequence of `Str` values; `None` when any element is of
/// another shape.
pub open spec fn spec_str_items(items: Seq<JsonData>) -> Option<Seq<Seq<char>>>
    decreases items.len(),
{
    if items.len() == 0 {
        Some(Seq::empty())
    } else {
        match items[0] {
            JsonData::Str(s) => match spec_str_items(items.skip(1)) {
                Some(rest) => Some(seq![s] + rest),
                None => None,
            },
            _ => None,
        }
    }
}

pub fn str_items(items: &Vec<JsonValue>) -> (r: Option<Vec<String>>)
    ensures
        r matches Some(v) ==> spec_str_items(crate::json::json_view(JsonValue::Arr(*items))->Arr_0)
            == Some(strs_view(v@)),
        r is None ==> spec_str_items(crate::json::json_view(JsonValue::Arr(*items))->Arr_0)
            is None,
{
    let ghost m = crate::json::json_view(JsonValue::Arr(*items))->Arr_0;
    let mut out: Vec<String> = Vec::new();
    let mut i: usize = 0;
    proof {
        assert(m.skip(0) =~= m);
    }
    while i < items.len()
        invariant
            m == crate::json::json_view(JsonValue::Arr(*items))->Arr_0,
            m.len() == items@.len(),
            forall|j: int| 0 <= j < m.len() ==> m[j] == crate::json::json_view(items@[j]),
            i <= items@.len(),
            strs_view(out@).len() == i,
            spec_str_items(m) matches Some(all) ==> all =~= strs_view(out@) + match spec_str_items(
                m.skip(i as int),
            ) {
                Some(rest) => rest,
                None => Seq::empty(),
            },
            spec_str_items(m) is Some ==> spec_str_items(m.skip(i as int)) is Some,
            spec_str_items(m.skip(i as int)) is Some ==> spec_str_items(m) is Some,
        decreases items@.len() - i,
    {
        assert(m.skip(i as int)[0] == m[i as int]);
        match &items[i] {
            JsonValue::Str(s) => {
                out.push(s.clone());
            },
            _ => {
                assert(spec_str_items(m.skip(i as int)) is None);
                return None;
            },
        }
        proof {
            assert(m.skip(i as int).skip(1) =~= m.skip(i + 1));
            if spec_str_items(m.skip(i + 1)) is Some {
                assert(spec_str_items(m.skip(i as int)) matches Some(x) && x =~= seq![
                    m.skip(i as int)[0]->Str_0,
                ] + spec_str_items(m.skip(i + 1))->Some_0);
            }
        }
        i = i + 1;
    }
    proof {
        assert(m.skip(i as int) =~= Seq::<JsonData>::empty());
        assert(spec_str_items(m) matches Some(all) && all =~= strs_view(out@));
    }
    Some(out)
}

/// What decoding a retrieved point yields: `None` is a corrupted record.
/// The identifier must be present and well formed; every persisted field must
/// be present with its stored shape; `payload_type` alone may be absent or
/// unrecognized, falling back to `Code`.
pub open spec fn spec_decode(
    id: Option<Seq<char>>,
    emb: Option<Seq<i64>>,
    fields: Seq<(Seq<char>, JsonData)>,
    score: i64,
) -> Option<PayloadData> {
    match id {
        None => None,
        Some(u) => {
            if !is_uuid_text(u) {
                None
            } else {
                let lang = spec_as_str(spec_obj_get(fields, "lang"@));
                let repo_name = spec_as_str(spec_obj_get(fields, "repo_name"@));
                let repo_ref = spec_as_str(spec_obj_get(fields, "repo_ref"@));
                let relative_path = spec_as_str(spec_obj_get(fields, "relative_path"@));
                let content_hash = spec_as_str(spec_obj_get(fields, "content_hash"@));
                let display_text = spec_as_str(spec_obj_get(fields, "display_text"@));
                let origin_text = spec_as_str(spec_obj_get(fields, "origin_text"@));
                let start_line = spec_num_field(fields, "start_line"@);
                let end_line = spec_num_field(fields, "end_line"@);
                let start_byte = spec_num_field(fields, "start_byte"@);
                let end_byte = spec_num_field(fields, "end_byte"@);
                let branches = spec_branches_field(fields);
                if lang is Some && repo_name is Some && repo_ref is Some && relative_path is Some
                    && content_hash is Some && display_text is Some && origin_text is Some
                    && start_line is Some && end_line is Some && start_byte is Some && end_byte
                    is Some && branches is Some {
                    Some(
                        PayloadData {
                            lang: lang->Some_0,
                            repo_name: repo_name->Some_0,
                            repo_ref: repo_ref->Some_0,
                            payload_type: match spec_as_str(
                                spec_obj_get(fields, "payload_type"@),
                            ) {
                                Some(t) => spec_payload_type_of(t),
                                None => PayloadType::Code,
                            },
                            relative_path: relative_path->Some_0,
                            content_hash: content_hash->Some_0,
                            display_text: display_text->Some_0,
                            origin_text: origin_text->Some_0,
                            start_line: start_line->Some_0,
                            end_line: end_line->Some_0,
                            start_byte: start_byte->Some_0,
                            end_byte: end_byte->Some_0,
                            branches: branches->Some_0,
                            id: Some(u),
                            embedding: emb,
                            score: Some(score),
                        },
                    )
                } else {
                    None
                }
            }
        },
    }
}

/// A legacy numeric field: stored as decimal text, read back as a `u64`.
pub open spec fn spec_num_field(fields: Seq<(Seq<char>, JsonData)>, key: Seq<char>) -> Option<
    u64,
> {
    match spec_as_str(spec_obj_get(fields, key)) {
        Some(s) => {
            if is_dec_digits(s) && dec_val(s) <= u64::MAX {
                Some(dec_val(s) as u64)
            } else {
                None
            }
        },
        None => None,
    }
}

/// The branch list: an array of strings.
pub open spec fn spec_branches_field(fields: Seq<(Seq<char>, JsonData)>) -> Option<
    Seq<Seq<char>>,
> {
    match spec_obj_get(fields, "branches"@) {
        Some(JsonData::Arr(items)) => spec_str_items(items),
        _ => None,
    }
}

fn get_str_field(fields: &Vec<(String, JsonValue)>, key: &str) -> (r: Result<
    String,
    SemanticError,
>)
    ensures
        r matches Ok(s) ==> spec_as_str(spec_obj_get(obj_view(fields@), key@)) == Some(s@),
        r is Err ==> spec_as_str(spec_obj_get(obj_view(fields@), key@)) is None,
        r matches Err(e) ==> e == SemanticError::CorruptedRecord,
{
    match obj_get_str(fields, key) {
        Some(s) => Ok(s),
        None => Err(SemanticError::CorruptedRecord),
    }
}

fn get_num_field(fields: &Vec<(String, JsonValue)>, key: &str) -> (r: Result<u64, SemanticError>)
    ensures
        r matches Ok(n) ==> spec_num_field(obj_view(fields@), key@) == Some(n),
        r is Err ==> spec_num_field(obj_view(fields@), key@) is None,
        r matches Err(e) ==> e == SemanticError::CorruptedRecord,
{
    match obj_get_str(fields, key) {
        Some(s) => {
            let cs = chars_of(s.as_str());
            match parse_u64(&cs) {
                Some(n) => Ok(n),
                None => Err(SemanticError::CorruptedRecord),
            }
        },
        None => Err(SemanticError::CorruptedRecord),
    }
}

/// Decodes one retrieved point: the identifier the index returned, the dense
/// vector when one was requested, the field map, and the relevance score.
/// Fails with `CorruptedRecord` exactly when the identifier is missing or
/// malformed or a persisted field is missing or of the wrong shape.
pub fn parse_payload(
    id: Option<String>,
    embedding: Option<Vec<i64>>,
    fields: &Vec<(String, JsonValue)>,
    score: i64,
) -> (r: Result<CodePayload, SemanticError>)
    ensures
        r matches Ok(p) ==> spec_decode(
            id_view(id),
            emb_view(embedding),
            obj_view(fields@),
            score,
        ) == Some(p@),
        r is Err <==> spec_decode(id_view(id), emb_view(embedding), obj_view(fields@), score)
            is None,
        r matches Err(e) ==> e == SemanticError::CorruptedRecord,
{
    let u = match id {
        Some(u) => u,
        None => {
            return Err(SemanticError::CorruptedRecord);
        },
    };
    if !check_uuid_text(&u) {
        return Err(SemanticError::CorruptedRecord);
    }
    let lang = match get_str_field(fields, "lang") {
        Ok(v) => v,
        Err(e) => {
            return Err(e);
        },
    };
    let repo_name = match get_str_field(fields, "repo_name") {
        Ok(v) => v,
        Err(e) => {
            return Err(e);
        },
    };
    let repo_ref = match get_str_field(fields, "repo_ref") {
        Ok(v) => v,
        Err(e) => {
            return Err(e);
        },
    };
    let relative_path = match get_str_field(fields, "relative_path") {
        Ok(v) => v,
        Err(e) => {
            return Err(e);
        },
    };
    let content_hash = match get_str_field(fields, "content_hash") {
        Ok(v) => v,
        Err(e) => {
            return Err(e);
        },
    };
    let display_text = match get_str_field(fields, "display_text") {
        Ok(v) => v,
        Err(e) => {
            return Err(e);
        },
    };
    let origin_text = match get_str_field(fields, "origin_text") {
        Ok(v) => v,
        Err(e) => {
            return Err(e);
        },
    };
    let start_line = match get_num_field(fields, "start_line") {
        Ok(v) => v,
        Err(e) => {
            return Err(e);
        },
    };
    let end_line = match get_num_field(fields, "end_line") {
        Ok(v) => v,
        Err(e) => {
            return Err(e);
        },
    };
    let start_byte = match get_num_field(fields, "start_byte") {
        Ok(v) => v,
        Err(e) => {
            return Err(e);
        },
    };
    let end_byte = match get_num_field(fields, "end_byte") {
        Ok(v) => v,
        Err(e) => {
            return Err(e);
        },
    };
    let branches = match obj_get(fields, "branches") {
        Some(JsonValue::Arr(items)) => match str_items(items) {
            Some(bs) => bs,
            None => {
                return Err(SemanticError::CorruptedRecord);
            },
        },
        _ => {
            return Err(SemanticError::CorruptedRecord);
        },
    };
    let payload_type = match obj_get_str(fields, "payload_type") {
        Some(t) => PayloadType::from_str(t.as_str()),
        None => PayloadType::Code,
    };
    Ok(
        CodePayload {
            lang,
            repo_name,
            repo_ref,
            payload_type,
            relative_path,
            content_hash,
            display_text,
            origin_text,
            start_line,
            end_line,
            start_byte,
            end_byte,
            branches,
            id: Some(u),
            embedding,
            score: Some(score),
        },
    )
}

proof fn lemma_obj_get_at(s: Seq<(Seq<char>, JsonData)>, key: Seq<char>, j: int)
    requires
        0 <= j < s.len(),
        s[j].0 == key,
        forall|k: int| 0 <= k < j ==> s[k].0 != key,
    ensures
        spec_obj_get(s, key) == Some(s[j].1),
    decreases j,
{
    if j > 0 {
        assert(s[0].0 != key);
        assert(s.skip(1)[j - 1] == s[j]);
        assert forall|k: int| 0 <= k < j - 1 implies s.skip(1)[k].0 != key by {
            assert(s.skip(1)[k] == s[k + 1]);
        }
        lemma_obj_get_at(s.skip(1), key, j - 1);
    }
}

proof fn lemma_str_items_of_strs(b: Seq<Seq<char>>)
    ensures
        spec_str_items(b.map_values(|x: Seq<char>| JsonData::Str(x))) == Some(b),
    decreases b.len(),
{
    let m = b.map_values(|x: Seq<char>| JsonData::Str(x));
    if b.len() == 0 {
        assert(spec_str_items(m) matches Some(e) && e =~= b);
    } else {
        assert(m[0] == JsonData::Str(b[0]));
        lemma_str_items_of_strs(b.skip(1));
        assert(m.skip(1) =~= b.skip(1).map_values(|x: Seq<char>| JsonData::Str(x)));
        assert(spec_str_items(m) matches Some(got) && got =~= b);
    }
}

/// Round trip: decoding what the codec wrote reproduces every persisted
/// field exactly; the ephemeral fields come from the read alone.  The record
/// must be one the engine would store: ephemeral fields empty and the
/// language tag already lower-case (the codec lower-cases on write).
pub proof fn lemma_codec_round_trip(p: CodePayload, u: Seq<char>, emb: Option<Seq<i64>>, sc: i64)
    requires
        p@.id is None,
        p@.embedding is None,
        p@.score is None,
        p@.lang == spec_lower(p@.lang),
        is_uuid_text(u),
    ensures
        spec_decode(Some(u), emb, spec_encode(p@), sc) == Some(
            (PayloadData { id: Some(u), embedding: emb, score: Some(sc), ..p@ }),
        ),
{
    let enc = spec_encode(p@);
    reveal_strlit("lang");
    reveal_strlit("repo_name");
    reveal_strlit("repo_ref");
    reveal_strlit("payload_type");
    reveal_strlit("relative_path");
    reveal_strlit("content_hash");
    reveal_strlit("display_text");
    reveal_strlit("origin_text");
    reveal_strlit("start_line");
    reveal_strlit("end_line");
    reveal_strlit("start_byte");
    reveal_strlit("end_byte");
    reveal_strlit("branches");
    assert("lang"@.len() == 4);
    assert("repo_name"@.len() == 9);
    assert("repo_ref"@.len() == 8);
    assert("payload_type"@.len() == 12);
    assert("relative_path"@.len() == 13);
    assert("content_hash"@.len() == 12);
    assert("display_text"@.len() == 12);
    assert("origin_text"@.len() == 11);
    assert("start_line"@.len() == 10);
    assert("end_line"@.len() == 8);
    assert("start_byte"@.len() == 10);
    assert("end_byte"@.len() == 8);
    assert("branches"@.len() == 8);
    assert("repo_ref"@[0] == 'r' && "end_line"@[0] == 'e' && "end_byte"@[0] == 'e'
        && "branches"@[0] == 'b');
    assert("end_line"@[4] == 'l' && "end_byte"@[4] == 'b');
    assert("payload_type"@[0] == 'p' && "content_hash"@[0] == 'c' && "display_text"@[0] == 'd');
    assert("start_line"@[6] == 'l' && "start_byte"@[6] == 'b');
    lemma_obj_get_at(enc, "lang"@, 0);
    lemma_obj_get_at(enc, "repo_name"@, 1);
    lemma_obj_get_at(enc, "repo_ref"@, 2);
    lemma_obj_get_at(enc, "payload_type"@, 3);
    lemma_obj_get_at(enc, "relative_path"@, 4);
    lemma_obj_get_at(enc, "content_hash"@, 5);
    lemma_obj_get_at(enc, "display_text"@, 6);
    lemma_obj_get_at(enc, "origin_text"@, 7);
    lemma_obj_get_at(enc, "start_line"@, 8);
    lemma_obj_get_at(enc, "end_line"@, 9);
    lemma_obj_get_at(enc, "start_byte"@, 10);
    lemma_obj_get_at(enc, "end_byte"@, 11);
    lemma_obj_get_at(enc, "branches"@, 12);
    crate::strutil::lemma_dec_round_trip(p@.start_line as int);
    crate::strutil::lemma_dec_round_trip(p@.end_line as int);
    crate::strutil::lemma_dec_round_trip(p@.start_byte as int);
    crate::strutil::lemma_dec_round_trip(p@.end_byte as int);
    lemma_str_items_of_strs(p@.branches);
    lemma_payload_type_round_trip(p@.payload_type);
    assert(spec_num_field(enc, "start_line"@) == Some(p@.start_line));
    assert(spec_num_field(enc, "end_line"@) == Some(p@.end_line));
    assert(spec_num_field(enc, "start_byte"@) == Some(p@.start_byte));
    assert(spec_num_field(enc, "end_byte"@) == Some(p@.end_byte));
    assert(spec_branches_field(enc) == Some(p@.branches));
    assert(spec_decode(Some(u), emb, enc, sc) matches Some(q) && q == (PayloadData {
        id: Some(u),
        embedding: emb,
        score: Some(sc),
        ..p@
    }));
}

/// The view of an optional identifier.
pub open spec fn id_view(id: Option<String>) -> Option<Seq<char>> {
    match id {
        Some(s) => Some(s@),
        None => None,
    }
}

/// The view of an optional vector.
pub open spec fn emb_view(emb: Option<Vec<i64>>) -> Option<Seq<i64>> {
    match emb {
        Some(e) => Some(e@),
        None => None,
    }
}

} // verus!
