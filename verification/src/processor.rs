//! Per-file processing: parse, optionally reduce to selected fields,
//! serialize, and classify the outcome.
//!
//! Everything here is a pure function of the file's bytes and the run's
//! options; reading the bytes is the caller's business. Parsing and
//! serialization are delegated to serde_json behind trusted wrappers whose
//! results are named; the field selection in between is verified against
//! the selector algebra of `crate::json`.

use vstd::prelude::*;
use vstd::string::*;

use serde_json::Value;

use crate::error::JConvertError;
use crate::json::JsonVal;
use crate::json::JsonValue;
use crate::json::extract_members;
use crate::json::extract_step;
use crate::json::extract_val;
use crate::json::flat_key;
use crate::json::flatten_selector;
use crate::json::members_view;
use crate::json::obj_insert;
use crate::json::obj_insert_exec;
use crate::json::obj_lookup;
use crate::json::parse_index;
use crate::json::parse_index_exec;
use crate::json::resolve_path;
use crate::json::split_on;
use crate::json::split_str;

verus! {

/// The outcome of processing one source file.
///
/// At most one of `json_line` and `error` is present: a file either
/// became a line of output, or was found valid without producing output,
/// or failed with a reason.
#[derive(Debug)]
pub struct ProcessResult {
    /// The source file this outcome belongs to.
    pub path: String,
    /// The serialized line, when conversion succeeded.
    pub json_line: Option<String>,
    /// The failure reason, when processing failed.
    pub error: Option<String>,
    /// Size of the source file in bytes, as far as it was known.
    pub file_size: u64,
    /// Whether the source file held valid JSON.
    pub is_valid: bool,
}

impl ProcessResult {
    /// The mutual exclusion of outcome and failure reason.
    pub open spec fn wf(self) -> bool {
        &&& (self.json_line is Some ==> self.is_valid && self.error is None)
        &&& (self.error is Some ==> !self.is_valid && self.json_line is None)
    }

    /// The outcome of a successful conversion.
    pub fn success(path: String, json_line: String, file_size: u64) -> (r: Self)
        ensures
            r.path == path,
            r.json_line == Some(json_line),
            r.error is None,
            r.file_size == file_size,
            r.is_valid,
            r.wf(),
    {
        Self { path, json_line: Some(json_line), error: None, file_size, is_valid: true }
    }

    /// The outcome of a failed file.
    pub fn failure(path: String, error: String, file_size: u64) -> (r: Self)
        ensures
            r.path == path,
            r.json_line is None,
            r.error == Some(error),
            r.file_size == file_size,
            !r.is_valid,
            r.wf(),
    {
        Self { path, json_line: None, error: Some(error), file_size, is_valid: false }
    }

    /// The outcome of a file that was only checked for validity.
    pub fn valid(path: String, file_size: u64) -> (r: Self)
        ensures
            r.path == path,
            r.json_line is None,
            r.error is None,
            r.file_size == file_size,
            r.is_valid,
            r.wf(),
    {
        Self { path, json_line: None, error: None, file_size, is_valid: true }
    }
}

/// How every file of a run is processed. Built once, then read only.
#[derive(Debug, Clone)]
pub struct ProcessOptions {
    /// The selectors to keep, in order; nothing means "pass through".
    pub fields: Option<Vec<String>>,
    /// Indented instead of compact serialization.
    pub pretty: bool,
    /// Check validity only; produce no output line.
    pub validate_only: bool,
    /// File size at and above which the large-file read strategy is used.
    /// A performance hint only: it never changes what is produced.
    pub mmap_threshold: u64,
}

impl ProcessOptions {
    /// The default options: pass every document through unchanged,
    /// compactly, with a 10 MiB large-file threshold.
    pub fn new() -> (r: Self)
        ensures
            r.fields is None,
            !r.pretty,
            !r.validate_only,
            r.mmap_threshold == 10485760,
    {
        Self { fields: None, pretty: false, validate_only: false, mmap_threshold: 10485760 }
    }

    /// The same options with the selector list replaced.
    pub fn with_fields(self, fields: Option<Vec<String>>) -> (r: Self)
        ensures
            r.fields == fields,
            r.pretty == self.pretty,
            r.validate_only == self.validate_only,
            r.mmap_threshold == self.mmap_threshold,
    {
        Self { fields, pretty: self.pretty, validate_only: self.validate_only, mmap_threshold: self.mmap_threshold }
    }

    /// The same options with the serialization density replaced.
    pub fn with_pretty(self, pretty: bool) -> (r: Self)
        ensures
            r.fields == self.fields,
            r.pretty == pretty,
            r.validate_only == self.validate_only,
            r.mmap_threshold == self.mmap_threshold,
    {
        Self { fields: self.fields, pretty, validate_only: self.validate_only, mmap_threshold: self.mmap_threshold }
    }

    /// The same options with the validate-only switch replaced.
    pub fn with_validate_only(self, validate_only: bool) -> (r: Self)
        ensures
            r.fields == self.fields,
            r.pretty == self.pretty,
            r.validate_only == validate_only,
            r.mmap_threshold == self.mmap_threshold,
    {
        Self { fields: self.fields, pretty: self.pretty, validate_only, mmap_threshold: self.mmap_threshold }
    }
}

#[verifier::external_type_specification]
#[verifier::external_body]
pub struct ExSerdeValue(Value);

/// Relies on serde_json::Value: each variant of the outside document form
/// is carried over one for one; a number is carried as the text serde_json
/// prints for it.
#[verifier::external_body]
fn json_of_value(v: &Value) -> JsonValue {
    match v {
        Value::Null => JsonValue::Null,
        Value::Bool(b) => JsonValue::Bool(*b),
        Value::Number(n) => JsonValue::Num(n.to_string()),
        Value::String(s) => JsonValue::Str(s.clone()),
        Value::Array(items) => JsonValue::Arr(items.iter().map(json_of_value).collect()),
        Value::Object(ms) => JsonValue::Obj(
            ms.iter().map(|(k, w)| (k.clone(), json_of_value(w))).collect(),
        ),
    }
}

/// Whether serde_json::Number accepts a text as a JSON number.
pub uninterp spec fn num_text_ok(s: Seq<char>) -> bool;

/// Whether every number text inside a document is one that serde_json
/// accepts: exactly the documents the serializers turn into a line.
pub open spec fn renders_ok(v: JsonVal) -> bool
    decreases v,
{
    match v {
        JsonVal::Num(s) => num_text_ok(s),
        JsonVal::Arr(items) => forall|i: int|
            0 <= i < items.len() ==> renders_ok(#[trigger] items[i]),
        JsonVal::Obj(ms) => forall|i: int| 0 <= i < ms.len() ==> renders_ok((#[trigger] ms[i]).1),
        _ => true,
    }
}

/// Whether a text holds no newline.
pub open spec fn has_no_newline(s: Seq<char>) -> bool {
    forall|i: int| 0 <= i < s.len() ==> s[i] != '\n'
}

/// Relies on serde_json::Number: whether a text is accepted as a JSON
/// number depends on the text alone; a rejected text is reported.
#[verifier::external_body]
fn number_of_text(s: &String) -> (r: Result<Value, String>)
    ensures
        r is Ok <==> num_text_ok(s@),
{
    match s.parse::<serde_json::Number>() {
        Ok(n) => Ok(Value::Number(n)),
        Err(e) => Err(e.to_string()),
    }
}

/// Relies on serde_json::Value: rebuilds the outside document form
/// variant by variant.
#[verifier::external_body]
fn value_of_json(v: &JsonValue) -> Result<Value, String> {
    match v {
        JsonValue::Null => Ok(Value::Null),
        JsonValue::Bool(b) => Ok(Value::Bool(*b)),
        JsonValue::Num(s) => number_of_text(s),
        JsonValue::Str(s) => Ok(Value::String(s.clone())),
        JsonValue::Arr(items) => Ok(Value::Array(
            items.iter().map(value_of_json).collect::<Result<_, String>>()?,
        )),
        JsonValue::Obj(ms) => Ok(Value::Object(
            ms.iter().map(|p| Ok((p.0.clone(), value_of_json(&p.1)?))).collect::<Result<
                _,
                String,
            >>()?,
        )),
    }
}

/// The document a byte sequence holds, if it holds valid JSON.
pub uninterp spec fn json_parse(bytes: Seq<u8>) -> Option<JsonVal>;

/// Relies on serde_json::from_slice: whether bytes are a valid JSON
/// document, and which document they denote, depend on the bytes alone.
/// The error text carries serde_json's diagnosis, offsets included.
/// A parsed document always renders again: its number texts are the ones
/// serde_json itself printed, and serde_json re-accepts its own output.
#[verifier::external_body]
fn parse_json_bytes(bytes: &[u8]) -> (r: Result<JsonValue, String>)
    ensures
        match r {
            Ok(v) => json_parse(bytes@) == Some(v@) && renders_ok(v@),
            Err(_) => json_parse(bytes@) is None,
        },
{
    match serde_json::from_slice::<Value>(bytes) {
        Ok(v) => Ok(json_of_value(&v)),
        Err(e) => Err(e.to_string()),
    }
}

/// The compact rendering of a document.
pub uninterp spec fn json_compact_text(v: JsonVal) -> Seq<char>;

/// The indented rendering of a document.
pub uninterp spec fn json_pretty_text(v: JsonVal) -> Seq<char>;

/// Relies on serde_json::to_string: the compact rendering of a document
/// depends on the document alone. It succeeds exactly when every number
/// text is accepted — on a rebuilt `Value` nothing else can fail — and
/// its compact formatter never emits a newline.
#[verifier::external_body]
fn serialize_compact(v: &JsonValue) -> (r: Result<String, String>)
    ensures
        r is Ok <==> renders_ok(v@),
        r matches Ok(line) ==> line@ == json_compact_text(v@),
        r matches Ok(line) ==> has_no_newline(line@),
{
    let outside = value_of_json(v)?;
    serde_json::to_string(&outside).map_err(|e| e.to_string())
}

/// Relies on serde_json::to_string_pretty: the indented rendering of a
/// document depends on the document alone, and succeeds exactly when
/// every number text is accepted.
#[verifier::external_body]
fn serialize_pretty(v: &JsonValue) -> (r: Result<String, String>)
    ensures
        r is Ok <==> renders_ok(v@),
        r matches Ok(line) ==> line@ == json_pretty_text(v@),
{
    let outside = value_of_json(v)?;
    serde_json::to_string_pretty(&outside).map_err(|e| e.to_string())
}

/// Resolve a dotted path against a document, walking objects by key and
/// arrays by numeric index.
pub fn get_nested_field<'a>(json: &'a JsonValue, path: &str) -> (r: Option<&'a JsonValue>)
    ensures
        match r {
            Some(v) => resolve_path(json@, split_on(path@, '.')) == Some(v@),
            None => resolve_path(json@, split_on(path@, '.')) is None,
        },
{
    let parts = split_str(path, '.');
    let ghost segs = split_on(path@, '.');
    let mut cur: &'a JsonValue = json;
    let mut i: usize = 0;
    proof {
        assert(segs.skip(0) =~= segs);
    }
    while i < parts.len()
        invariant
            i <= parts.len(),
            parts.deep_view() == segs,
            segs == split_on(path@, '.'),
            resolve_path(cur@, segs.skip(i as int)) == resolve_path(json@, segs),
        decreases parts.len() - i,
    {
        proof {
            assert(segs.skip(i as int)[0] == segs[i as int]);
            assert(segs.skip(i as int).skip(1) =~= segs.skip(i + 1));
        }
        let seg = parts[i].as_str();
        proof {
            assert(seg@ == segs[i as int]);
        }
        match cur {
            JsonValue::Obj(_) => {
                match cur.get(seg) {
                    Some(next) => {
                        cur = next;
                    },
                    None => {
                        return None;
                    },
                }
            },
            JsonValue::Arr(items) => {
                match parse_index_exec(seg) {
                    Some(idx) => {
                        if idx < items.len() {
                            cur = &items[idx];
                        } else {
                            return None;
                        }
                    },
                    None => {
                        return None;
                    },
                }
            },
            _ => {
                return None;
            },
        }
        i = i + 1;
    }
    proof {
        assert(segs.skip(parts.deep_view().len() as int) =~= Seq::<Seq<char>>::empty());
    }
    Some(cur)
}

/// Reduce a document to the given selectors: objects keep only what the
/// selectors resolve to, arrays are mapped element by element, scalars
/// pass through unchanged.
#[verifier::loop_isolation(false)]
pub fn extract_fields(json: &JsonValue, fields: &Vec<String>) -> (r: JsonValue)
    ensures
        r@ == extract_val(json@, fields.deep_view()),
    decreases *json,
{
    let ghost sels = fields.deep_view();
    match json {
        JsonValue::Obj(_) => {
            let mut members: Vec<(String, JsonValue)> = Vec::new();
            let mut i: usize = 0;
            proof {
                assert(sels.skip(0) =~= sels);
                assert(members_view(members@) =~= Seq::<(Seq<char>, JsonVal)>::empty());
            }
            while i < fields.len()
                invariant
                    i <= fields.len(),
                    extract_members(json@, sels.skip(i as int), members_view(members@))
                        == extract_members(json@, sels, Seq::empty()),
                decreases fields.len() - i,
            {
                proof {
                    assert(sels.skip(i as int)[0] == sels[i as int]);
                    assert(sels.skip(i as int).skip(1) =~= sels.skip(i + 1));
                }
                let sel = fields[i].as_str();
                match get_nested_field(json, sel) {
                    Some(found) => {
                        let key = flatten_selector(sel);
                        let val = found.deep_clone();
                        obj_insert_exec(&mut members, key, val);
                    },
                    None => {},
                }
                i = i + 1;
            }
            proof {
                assert(sels.skip(sels.len() as int) =~= Seq::<Seq<char>>::empty());
                assert(json@ matches JsonVal::Obj(_));
            }
            let r = JsonValue::Obj(members);
            proof {
                assert((r@)->Obj_0 =~= members_view(members@));
                assert(r@ =~= extract_val(json@, sels));
            }
            r
        },
        JsonValue::Arr(items) => {
            let mut out: Vec<JsonValue> = Vec::new();
            let mut i: usize = 0;
            while i < items.len()
                invariant
                    i <= items.len(),
                    out.len() == i,
                    forall|j: int| 0 <= j < i ==> (#[trigger] out@[j])@ == extract_val(
                        items@[j]@,
                        sels,
                    ),
                decreases items.len() - i,
            {
                let e = extract_fields(&items[i], fields);
                out.push(e);
                i = i + 1;
            }
            let r = JsonValue::Arr(out);
            proof {
                assert(*json == JsonValue::Arr(*items));
                let s1 = (r@)->Arr_0;
                let s2 = (extract_val(json@, sels))->Arr_0;
                assert(s1.len() == s2.len());
                assert(forall|j: int| 0 <= j < s1.len() ==> s1[j] == s2[j]);
                assert(s1 =~= s2);
                assert(r@ =~= extract_val(json@, sels));
            }
            r
        },
        _ => {
            let r = json.deep_clone();
            r
        },
    }
}

/// A member value found by lookup renders whenever every member value
/// renders.
proof fn lemma_obj_lookup_renders(ms: Seq<(Seq<char>, JsonVal)>, key: Seq<char>)
    requires
        forall|i: int| 0 <= i < ms.len() ==> renders_ok((#[trigger] ms[i]).1),
        obj_lookup(ms, key) is Some,
    ensures
        renders_ok(obj_lookup(ms, key)->0),
    decreases ms.len(),
{
    if ms.len() > 0 && ms[0].0 != key {
        assert(forall|i: int| 0 <= i < ms.skip(1).len() ==> renders_ok(
            (#[trigger] ms.skip(1)[i]).1,
        ));
        lemma_obj_lookup_renders(ms.skip(1), key);
    }
}

/// A value resolved along a path renders whenever the document renders.
proof fn lemma_resolve_renders(v: JsonVal, segments: Seq<Seq<char>>)
    requires
        renders_ok(v),
        resolve_path(v, segments) is Some,
    ensures
        renders_ok(resolve_path(v, segments)->0),
    decreases segments.len(),
{
    if segments.len() > 0 {
        match v {
            JsonVal::Obj(ms) => {
                lemma_obj_lookup_renders(ms, segments[0]);
                lemma_resolve_renders(obj_lookup(ms, segments[0])->0, segments.skip(1));
            },
            JsonVal::Arr(items) => {
                let i = parse_index(segments[0])->0;
                assert(renders_ok(items[i]));
                lemma_resolve_renders(items[i], segments.skip(1));
            },
            _ => {},
        }
    }
}

/// Inserting a rendering value into members that all render keeps every
/// member rendering.
proof fn lemma_obj_insert_renders(ms: Seq<(Seq<char>, JsonVal)>, key: Seq<char>, val: JsonVal)
    requires
        forall|i: int| 0 <= i < ms.len() ==> renders_ok((#[trigger] ms[i]).1),
        renders_ok(val),
    ensures
        forall|i: int| 0 <= i < obj_insert(ms, key, val).len() ==> renders_ok(
            (#[trigger] obj_insert(ms, key, val)[i]).1,
        ),
    decreases ms.len(),
{
    let whole = obj_insert(ms, key, val);
    if ms.len() == 0 {
        assert(whole[0].1 == val);
    } else if ms[0].0 == key {
        assert forall|i: int| 0 <= i < whole.len() implies renders_ok(whole[i].1) by {
            if i == 0 {
                assert(whole[0].1 == val);
            } else {
                assert(whole[i] == ms.skip(1)[i - 1]);
                assert(ms.skip(1)[i - 1] == ms[i]);
            }
        }
    } else {
        assert(forall|i: int| 0 <= i < ms.skip(1).len() ==> renders_ok(
            (#[trigger] ms.skip(1)[i]).1,
        ));
        lemma_obj_insert_renders(ms.skip(1), key, val);
        let rest = obj_insert(ms.skip(1), key, val);
        assert forall|i: int| 0 <= i < whole.len() implies renders_ok(whole[i].1) by {
            if i == 0 {
                assert(whole[0] == ms[0]);
            } else {
                assert(whole[i] == rest[i - 1]);
            }
        }
    }
}

/// Every member the selectors extract from a rendering document renders.
proof fn lemma_extract_members_renders(
    v: JsonVal,
    sels: Seq<Seq<char>>,
    acc: Seq<(Seq<char>, JsonVal)>,
)
    requires
        renders_ok(v),
        forall|i: int| 0 <= i < acc.len() ==> renders_ok((#[trigger] acc[i]).1),
    ensures
        forall|i: int| 0 <= i < extract_members(v, sels, acc).len() ==> renders_ok(
            (#[trigger] extract_members(v, sels, acc)[i]).1,
        ),
    decreases sels.len(),
{
    if sels.len() > 0 {
        let acc2 = extract_step(v, acc, sels[0]);
        match resolve_path(v, split_on(sels[0], '.')) {
            Some(found) => {
                lemma_resolve_renders(v, split_on(sels[0], '.'));
                lemma_obj_insert_renders(acc, flat_key(sels[0]), found);
                assert(acc2 == obj_insert(acc, flat_key(sels[0]), found));
            },
            None => {
                assert(acc2 == acc);
            },
        }
        assert(forall|i: int| 0 <= i < acc2.len() ==> renders_ok((#[trigger] acc2[i]).1));
        lemma_extract_members_renders(v, sels.skip(1), acc2);
        assert(extract_members(v, sels, acc) == extract_members(v, sels.skip(1), acc2));
        assert(forall|i: int| 0 <= i < extract_members(v, sels, acc).len() ==> renders_ok(
            (#[trigger] extract_members(v, sels, acc)[i]).1,
        ));
    }
}

/// Field selection never brings in a number text the document did not
/// already hold: a rendering document extracts to a rendering document.
proof fn lemma_extract_renders(v: JsonVal, sels: Seq<Seq<char>>)
    requires
        renders_ok(v),
    ensures
        renders_ok(extract_val(v, sels)),
    decreases v,
{
    match v {
        JsonVal::Obj(ms) => {
            lemma_extract_members_renders(v, sels, Seq::empty());
        },
        JsonVal::Arr(items) => {
            let out = (extract_val(v, sels))->Arr_0;
            assert forall|i: int| 0 <= i < out.len() implies renders_ok(out[i]) by {
                assert(renders_ok(items[i]));
                lemma_extract_renders(items[i], sels);
                assert(out[i] == extract_val(items[i], sels));
            }
        },
        _ => {},
    }
}

/// The document that processing serializes: the parsed document reduced
/// to the selected fields, or the document itself when no selection is
/// configured.
pub open spec fn output_doc(doc: JsonVal, options: ProcessOptions) -> JsonVal {
    match options.fields {
        Some(fs) => extract_val(doc, fs.deep_view()),
        None => doc,
    }
}

/// The line that a document serializes to, at the configured density.
pub open spec fn rendered_line(doc: JsonVal, pretty: bool) -> Seq<char> {
    if pretty {
        json_pretty_text(doc)
    } else {
        json_compact_text(doc)
    }
}

/// Whether a text is the parse-failure message for `file`: the fixed
/// message shape around the file name, with some parser diagnosis inside.
pub open spec fn is_parse_failure(m: Seq<char>, file: Seq<char>) -> bool {
    exists|reason: Seq<char>| m == #[trigger] crate::error::parse_error_text(file, reason)
}

/// Everything per-file processing promises of one outcome, as a relation
/// between the file's bytes, the options and the result: bytes that do
/// not parse yield a failure carrying the parse-failure message; in
/// validate-only mode parsed bytes are reported valid and nothing more;
/// in convert mode parsed bytes always yield exactly the rendered line of
/// the selected fields, newline-free when compact.
pub open spec fn processed(bytes: Seq<u8>, options: ProcessOptions, r: ProcessResult) -> bool {
    &&& r.wf()
    &&& match json_parse(bytes) {
        None => {
            &&& !r.is_valid
            &&& r.json_line is None
            &&& (r.error matches Some(m) && is_parse_failure(m@, r.path@))
        },
        Some(doc) => if options.validate_only {
            r.is_valid && r.json_line is None && r.error is None
        } else {
            &&& r.is_valid
            &&& r.error is None
            &&& (r.json_line matches Some(line) && line@ == rendered_line(
                output_doc(doc, options),
                options.pretty,
            ))
            &&& !options.pretty ==> has_no_newline(r.json_line->0@)
        },
    }
}

/// Process the bytes of one source file: parse them, and either report
/// their validity or serialize the selected fields to one line. All
/// failure is captured in the result; nothing is raised to the caller.
pub fn process_content(
    path: String,
    content: &[u8],
    file_size: u64,
    options: &ProcessOptions,
) -> (r: ProcessResult)
    ensures
        r.path == path,
        r.file_size == file_size,
        processed(content@, *options, r),
{
    match parse_json_bytes(content) {
        Err(msg) => {
            let ghost diagnosis = msg@;
            let reason = JConvertError::ParseError { file: path.clone(), reason: msg }.message();
            proof {
                assert(reason@ == crate::error::parse_error_text(path@, diagnosis));
            }
            ProcessResult::failure(path, reason, file_size)
        },
        Ok(doc) => {
            if options.validate_only {
                ProcessResult::valid(path, file_size)
            } else {
                let out = match &options.fields {
                    Some(fs) => extract_fields(&doc, fs),
                    None => doc,
                };
                proof {
                    match &options.fields {
                        Some(fs) => {
                            lemma_extract_renders(doc@, fs.deep_view());
                        },
                        None => {},
                    }
                    assert(renders_ok(out@));
                }
                let ser = if options.pretty {
                    serialize_pretty(&out)
                } else {
                    serialize_compact(&out)
                };
                match ser {
                    Ok(line) => ProcessResult::success(path, line, file_size),
                    Err(msg) => {
                        // Unreachable: the serializers succeed on every
                        // rendering document, and a parsed document
                        // always renders; kept as the defensive path the
                        // outcome classification asks for.
                        let reason = JConvertError::SerializeError {
                            file: path.clone(),
                            reason: msg,
                        }.message();
                        ProcessResult::failure(path, reason, file_size)
                    },
                }
            }
        },
    }
}

/// Check the bytes of one source file for validity alone.
pub fn validate_file(path: String, content: &[u8], file_size: u64) -> (r: ProcessResult)
    ensures
        r.path == path,
        r.file_size == file_size,
        r.wf(),
        r.json_line is None,
        r.is_valid <==> json_parse(content@) is Some,
        r.is_valid ==> r.error is None,
        !r.is_valid ==> (r.error matches Some(m) && is_parse_failure(m@, path@)),
{
    let options = ProcessOptions::new().with_validate_only(true);
    process_content(path, content, file_size, &options)
}

/// Field selection is a function: any two extractions of the same
/// document with the same selectors are one and the same value, however
/// often and wherever they are computed.
pub proof fn lemma_extract_deterministic(
    v: JsonVal,
    selectors: Seq<Seq<char>>,
    r1: JsonVal,
    r2: JsonVal,
)
    requires
        r1 == extract_val(v, selectors),
        r2 == extract_val(v, selectors),
    ensures
        r1 == r2,
{
}

/// The read strategy is invisible in the output: any two processing
/// outcomes for the same bytes, under options that differ only in the
/// large-file threshold, agree on validity and on the produced line.
pub proof fn lemma_strategy_transparent(
    bytes: Seq<u8>,
    o1: ProcessOptions,
    o2: ProcessOptions,
    r1: ProcessResult,
    r2: ProcessResult,
)
    requires
        o1.fields == o2.fields,
        o1.pretty == o2.pretty,
        o1.validate_only == o2.validate_only,
        processed(bytes, o1, r1),
        processed(bytes, o2, r2),
    ensures
        r1.is_valid == r2.is_valid,
        r1.json_line is Some <==> r2.json_line is Some,
        r1.json_line matches Some(l1) ==> (r2.json_line matches Some(l2) && l1@ == l2@),
{
}

} // verus!
