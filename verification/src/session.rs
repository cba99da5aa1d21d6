//! The runtime selector stored in an installation's `session.json`, at
//! `session_settings.extra.runtime.variant`.
//!
//! The document is handled as a generic JSON tree so that every other field
//! survives a change of the selector untouched.

use serde_json::{Number, Value};
use vstd::prelude::*;
use crate::text::{opt_view, str_eq};

verus! {

/// Variant name that selects SteamVR (OpenVR).
pub const RUNTIME_MODE_STEAMVR: &'static str = "Steamvr";

/// Variant name that selects the OpenXR runtime.
pub const RUNTIME_MODE_OPENXR: &'static str = "Openxr";

/// A JSON value. Numbers keep their text; object members keep their order.
#[derive(Debug, PartialEq)]
pub enum Json {
    Null,
    Bool(bool),
    Number(String),
    Str(String),
    Array(Vec<Json>),
    Object(Vec<(String, Json)>),
}

/// Position of the first member named `key`, or -1.
pub open spec fn key_index(es: Seq<(String, Json)>, key: Seq<char>) -> int
    decreases es.len(),
{
    if es.len() == 0 {
        -1
    } else if es[0].0@ == key {
        0
    } else {
        let r = key_index(es.drop_first(), key);
        if r < 0 {
            -1
        } else {
            r + 1
        }
    }
}

pub proof fn lemma_key_index(es: Seq<(String, Json)>, key: Seq<char>)
    ensures
        -1 <= key_index(es, key) < es.len(),
        key_index(es, key) >= 0 ==> es[key_index(es, key)].0@ == key,
        forall|j: int|
            0 <= j < es.len() && (key_index(es, key) < 0 || j < key_index(es, key)) ==> es[j].0@
                != key,
    decreases es.len(),
{
    if es.len() > 0 && es[0].0@ != key {
        lemma_key_index(es.drop_first(), key);
        assert forall|j: int|
            0 <= j < es.len() && (key_index(es, key) < 0 || j < key_index(es, key)) implies es[j].0@
            != key by {
            if j > 0 {
                assert(es[j] == es.drop_first()[j - 1]);
            }
        }
    }
}

/// `Value::get(key)`: the member named `key` of an object, `None` for any other value.
pub open spec fn member(v: Json, key: Seq<char>) -> Option<Json> {
    match v {
        Json::Object(es) => {
            let i = key_index(es@, key);
            if i >= 0 {
                Some(es@[i].1)
            } else {
                None
            }
        },
        _ => None,
    }
}

pub open spec fn then_member(v: Option<Json>, key: Seq<char>) -> Option<Json> {
    match v {
        Some(j) => member(j, key),
        None => None,
    }
}

/// The `session_settings.extra.runtime` node, if the document has one.
pub open spec fn runtime_node(doc: Json) -> Option<Json> {
    then_member(then_member(member(doc, "session_settings"@), "extra"@), "runtime"@)
}

/// The `session_settings.extra` node, if the document has one.
pub open spec fn runtime_parent(doc: Json) -> Option<Json> {
    then_member(member(doc, "session_settings"@), "extra"@)
}

/// The selected runtime variant: the string at `session_settings.extra.runtime.variant`.
pub open spec fn runtime_mode_spec(doc: Json) -> Option<Seq<char>> {
    match then_member(runtime_node(doc), "variant"@) {
        Some(Json::Str(s)) => Some(s@),
        _ => None,
    }
}

/// `new` is the object `old` with only the value of its first member named
/// `key` changed (the member must exist).
pub open spec fn replaced_member(old: Json, new: Json, key: Seq<char>) -> bool {
    match (old, new) {
        (Json::Object(es), Json::Object(es2)) => {
            let i = key_index(es@, key);
            &&& i >= 0
            &&& es2@.len() == es@.len()
            &&& es2@[i].0 == es@[i].0
            &&& forall|j: int| 0 <= j < es@.len() && j != i ==> es2@[j] == es@[j]
        },
        _ => false,
    }
}

/// `new` is the object `old` with its member `variant` set to the string
/// `value`: replaced in place when present, appended otherwise.
pub open spec fn variant_set(old: Json, new: Json, value: Seq<char>) -> bool {
    match (old, new) {
        (Json::Object(es), Json::Object(es2)) => {
            let i = key_index(es@, "variant"@);
            if i >= 0 {
                &&& es2@.len() == es@.len()
                &&& es2@[i].0 == es@[i].0
                &&& (es2@[i].1 matches Json::Str(s) && s@ == value)
                &&& forall|j: int| 0 <= j < es@.len() && j != i ==> es2@[j] == es@[j]
            } else {
                &&& es2@.len() == es@.len() + 1
                &&& es2@.drop_last() == es@
                &&& es2@.last().0@ == "variant"@
                &&& (es2@.last().1 matches Json::Str(s) && s@ == value)
            }
        },
        _ => false,
    }
}

/// `new` is `old` with `session_settings.extra.runtime.variant` set to `value`
/// and nothing else changed.
pub open spec fn runtime_mode_written(old: Json, new: Json, value: Seq<char>) -> bool {
    let ss = member(old, "session_settings"@).unwrap();
    let ss2 = member(new, "session_settings"@).unwrap();
    let ex = member(ss, "extra"@).unwrap();
    let ex2 = member(ss2, "extra"@).unwrap();
    let rt = member(ex, "runtime"@).unwrap();
    let rt2 = member(ex2, "runtime"@).unwrap();
    &&& replaced_member(old, new, "session_settings"@)
    &&& replaced_member(ss, ss2, "extra"@)
    &&& replaced_member(ex, ex2, "runtime"@)
    &&& variant_set(rt, rt2, value)
}

/// Why the selector could not be written.
#[derive(Clone, Copy, Debug, PartialEq, Eq, Structural)]
pub enum RuntimeModeError {
    /// The document has no `session_settings.extra.runtime` field.
    MissingRuntimeField,
    /// `session_settings.extra.runtime` is not an object.
    RuntimeNotObject,
    /// The file's bytes are not JSON.
    InvalidJson,
    /// The edited document could not be written out as JSON.
    EncodingFailed,
}

/// Position of the first entry named `key`.
pub fn index_of_key(es: &Vec<(String, Json)>, key: &str) -> (r: Option<usize>)
    ensures
        match r {
            Some(i) => i as int == key_index(es@, key@),
            None => key_index(es@, key@) == -1,
        },
{
    let n = es.len();
    let mut i: usize = 0;
    proof {
        lemma_key_index(es@, key@);
    }
    while i < n
        invariant
            i <= n,
            n == es@.len(),
            -1 <= key_index(es@, key@) < es@.len(),
            key_index(es@, key@) >= 0 ==> es@[key_index(es@, key@)].0@ == key@,
            forall|j: int|
                0 <= j < es@.len() && (key_index(es@, key@) < 0 || j < key_index(es@, key@))
                    ==> es@[j].0@ != key@,
            forall|j: int| 0 <= j < i ==> es@[j].0@ != key@,
        decreases n - i,
    {
        if str_eq(es[i].0.as_str(), key) {
            proof {
                let k = key_index(es@, key@);
                if k >= 0 && k < i {
                    assert(es@[k].0@ != key@);
                }
                if k < 0 || k > i {
                    assert(es@[i as int].0@ != key@);
                }
            }
            return Some(i);
        }
        i = i + 1;
    }
    proof {
        let k = key_index(es@, key@);
        if k >= 0 {
            assert(es@[k].0@ != key@);
        }
    }
    None
}

/// Position of the first member named `key` of an object.
pub fn find_member(v: &Json, key: &str) -> (r: Option<usize>)
    ensures
        match r {
            Some(i) => match *v {
                Json::Object(es) => i as int == key_index(es@, key@),
                _ => false,
            },
            None => member(*v, key@).is_none(),
        },
{
    match v {
        Json::Object(es) => index_of_key(es, key),
        _ => None,
    }
}

fn member_ref<'a>(v: &'a Json, key: &str) -> (r: Option<&'a Json>)
    ensures
        match r {
            Some(c) => member(*v, key@) == Some(*c),
            None => member(*v, key@).is_none(),
        },
{
    match find_member(v, key) {
        None => None,
        Some(i) => match v {
            Json::Object(es) => {
                proof {
                    lemma_key_index(es@, key@);
                }
                Some(&es[i].1)
            },
            _ => None,
        },
    }
}

/// Reads `session_settings.extra.runtime.variant`; `None` when any step is
/// missing or the value is not a string.
pub fn read_runtime_mode(doc: &Json) -> (r: Option<String>)
    ensures
        opt_view(r) == runtime_mode_spec(*doc),
{
    let ss = match member_ref(doc, "session_settings") {
        None => return None,
        Some(c) => c,
    };
    let ex = match member_ref(ss, "extra") {
        None => return None,
        Some(c) => c,
    };
    let rt = match member_ref(ex, "runtime") {
        None => return None,
        Some(c) => c,
    };
    match member_ref(rt, "variant") {
        Some(Json::Str(s)) => Some(s.clone()),
        _ => None,
    }
}

/// Two entry lists with the same names at every position find a name at the same position.
pub proof fn lemma_key_index_same_names(es: Seq<(String, Json)>, es2: Seq<(String, Json)>, key: Seq<char>)
    requires
        es.len() == es2.len(),
        forall|j: int| 0 <= j < es.len() ==> #[trigger] es2[j].0 == es[j].0,
    ensures
        key_index(es2, key) == key_index(es, key),
    decreases es.len(),
{
    if es.len() > 0 {
        assert(es2[0].0 == es[0].0);
        assert forall|j: int| 0 <= j < es.drop_first().len() implies #[trigger] es2.drop_first()[j].0
            == es.drop_first()[j].0 by {
            assert(es2[j + 1].0 == es[j + 1].0);
        }
        lemma_key_index_same_names(es.drop_first(), es2.drop_first(), key);
    }
}

fn set_variant_in(rt: Json, variant: &str) -> (r: Json)
    requires
        rt is Object,
    ensures
        variant_set(rt, r, variant@),
{
    match rt {
        Json::Object(mut es) => {
            let ghost es0 = es@;
            match index_of_key(&es, "variant") {
                Some(i) => {
                    proof {
                        lemma_key_index(es@, "variant"@);
                    }
                    let (k, _old) = es.remove(i);
                    es.insert(i, (k, Json::Str(variant.to_owned())));
                    proof {
                        assert forall|j: int| 0 <= j < es0.len() && j != i implies es@[j] == es0[j] by {
                            if j < i {
                                assert(es@[j] == es0[j]);
                            } else {
                                assert(es@[j] == es0[j]);
                            }
                        }
                    }
                    Json::Object(es)
                },
                None => {
                    es.push((String::from_str("variant"), Json::Str(variant.to_owned())));
                    proof {
                        assert(es@.drop_last() =~= es0);
                    }
                    Json::Object(es)
                },
            }
        },
        _ => rt,
    }
}

fn set_in_extra(ex: Json, variant: &str) -> (r: Json)
    requires
        member(ex, "runtime"@) matches Some(Json::Object(_)),
    ensures
        replaced_member(ex, r, "runtime"@),
        variant_set(member(ex, "runtime"@).unwrap(), member(r, "runtime"@).unwrap(), variant@),
{
    match ex {
        Json::Object(mut es) => {
            let ghost es0 = es@;
            let i = index_of_key(&es, "runtime").unwrap();
            proof {
                lemma_key_index(es@, "runtime"@);
            }
            let (k, child) = es.remove(i);
            let child2 = set_variant_in(child, variant);
            es.insert(i, (k, child2));
            proof {
                assert forall|j: int| 0 <= j < es0.len() && j != i implies es@[j] == es0[j] by {}
                assert forall|j: int| 0 <= j < es0.len() implies #[trigger] es@[j].0 == es0[j].0 by {
                    if j != i {
                        assert(es@[j] == es0[j]);
                    }
                }
                lemma_key_index_same_names(es0, es@, "runtime"@);
            }
            Json::Object(es)
        },
        _ => ex,
    }
}

fn set_in_settings(ss: Json, variant: &str) -> (r: Json)
    requires
        then_member(member(ss, "extra"@), "runtime"@) matches Some(Json::Object(_)),
    ensures
        replaced_member(ss, r, "extra"@),
        replaced_member(member(ss, "extra"@).unwrap(), member(r, "extra"@).unwrap(), "runtime"@),
        variant_set(
            member(member(ss, "extra"@).unwrap(), "runtime"@).unwrap(),
            member(member(r, "extra"@).unwrap(), "runtime"@).unwrap(),
            variant@,
        ),
{
    match ss {
        Json::Object(mut es) => {
            let ghost es0 = es@;
            let i = index_of_key(&es, "extra").unwrap();
            proof {
                lemma_key_index(es@, "extra"@);
            }
            let (k, child) = es.remove(i);
            let child2 = set_in_extra(child, variant);
            es.insert(i, (k, child2));
            proof {
                assert forall|j: int| 0 <= j < es0.len() && j != i implies es@[j] == es0[j] by {}
                assert forall|j: int| 0 <= j < es0.len() implies #[trigger] es@[j].0 == es0[j].0 by {
                    if j != i {
                        assert(es@[j] == es0[j]);
                    }
                }
                lemma_key_index_same_names(es0, es@, "extra"@);
            }
            Json::Object(es)
        },
        _ => ss,
    }
}

fn set_in_root(doc: Json, variant: &str) -> (r: Json)
    requires
        runtime_node(doc) matches Some(Json::Object(_)),
    ensures
        runtime_mode_written(doc, r, variant@),
{
    match doc {
        Json::Object(mut es) => {
            let ghost es0 = es@;
            let i = index_of_key(&es, "session_settings").unwrap();
            proof {
                lemma_key_index(es@, "session_settings"@);
            }
            let (k, child) = es.remove(i);
            let child2 = set_in_settings(child, variant);
            es.insert(i, (k, child2));
            proof {
                assert forall|j: int| 0 <= j < es0.len() && j != i implies es@[j] == es0[j] by {}
                assert forall|j: int| 0 <= j < es0.len() implies #[trigger] es@[j].0 == es0[j].0 by {
                    if j != i {
                        assert(es@[j] == es0[j]);
                    }
                }
                lemma_key_index_same_names(es0, es@, "session_settings"@);
            }
            Json::Object(es)
        },
        _ => doc,
    }
}

/// Sets `session_settings.extra.runtime.variant` to `variant`, leaving every
/// other part of the document as it was. Fails, leaving the document
/// untouched, when the `runtime` field is missing or is not an object.
pub fn write_runtime_mode(doc: &mut Json, variant: &str) -> (r: Result<(), RuntimeModeError>)
    ensures
        match r {
            Ok(()) => {
                &&& runtime_node(*old(doc)) matches Some(Json::Object(_))
                &&& runtime_mode_written(*old(doc), *final(doc), variant@)
            },
            Err(RuntimeModeError::MissingRuntimeField) => {
                &&& runtime_node(*old(doc)).is_none()
                &&& *final(doc) == *old(doc)
            },
            Err(RuntimeModeError::RuntimeNotObject) => {
                &&& runtime_node(*old(doc)) matches Some(rt)
                &&& !(rt is Object)
                &&& *final(doc) == *old(doc)
            },
            Err(_) => false,
        },
{
    let is_object = {
        let ss = match member_ref(&*doc, "session_settings") {
            None => return Err(RuntimeModeError::MissingRuntimeField),
            Some(c) => c,
        };
        let ex = match member_ref(ss, "extra") {
            None => return Err(RuntimeModeError::MissingRuntimeField),
            Some(c) => c,
        };
        let rt = match member_ref(ex, "runtime") {
            None => return Err(RuntimeModeError::MissingRuntimeField),
            Some(c) => c,
        };
        match rt {
            Json::Object(_) => true,
            _ => false,
        }
    };
    if !is_object {
        return Err(RuntimeModeError::RuntimeNotObject);
    }
    let mut taken = Json::Null;
    std::mem::swap(doc, &mut taken);
    let updated = set_in_root(taken, variant);
    *doc = updated;
    Ok(())
}

pub proof fn lemma_key_index_push(es: Seq<(String, Json)>, e: (String, Json), key: Seq<char>)
    ensures
        key_index(es.push(e), key) == (if key_index(es, key) >= 0 {
            key_index(es, key)
        } else if e.0@ == key {
            es.len() as int
        } else {
            -1
        }),
    decreases es.len(),
{
    if es.len() > 0 {
        assert(es.push(e).drop_first() =~= es.drop_first().push(e));
        assert(es.push(e)[0] == es[0]);
        lemma_key_index_push(es.drop_first(), e, key);
    } else {
        assert(es.push(e).drop_first() =~= Seq::<(String, Json)>::empty());
        assert(key_index(es.push(e).drop_first(), key) == -1);
        assert(es.push(e)[0] == e);
    }
}

proof fn lemma_replaced_member(old: Json, new: Json, key: Seq<char>, k: Seq<char>)
    requires
        replaced_member(old, new, key),
    ensures
        k != key ==> member(new, k) == member(old, k),
        member(new, key) matches Some(c) && member(old, key).is_some(),
        old matches Json::Object(es) && new matches Json::Object(es2) && member(new, key) == Some(
            es2@[key_index(es@, key)].1,
        ),
{
    match (old, new) {
        (Json::Object(es), Json::Object(es2)) => {
            let i = key_index(es@, key);
            assert forall|j: int| 0 <= j < es@.len() implies #[trigger] es2@[j].0 == es@[j].0 by {
                if j != i {
                    assert(es2@[j] == es@[j]);
                }
            }
            lemma_key_index_same_names(es@, es2@, key);
            lemma_key_index_same_names(es@, es2@, k);
            lemma_key_index(es@, key);
            lemma_key_index(es@, k);
            if k != key {
                let jk = key_index(es@, k);
                if jk >= 0 {
                    assert(jk != i);
                    assert(es2@[jk] == es@[jk]);
                }
            }
        },
        _ => {},
    }
}

proof fn lemma_variant_set(old: Json, new: Json, value: Seq<char>, k: Seq<char>)
    requires
        variant_set(old, new, value),
    ensures
        member(new, "variant"@) matches Some(Json::Str(s)) && s@ == value,
        k != "variant"@ ==> member(new, k) == member(old, k),
{
    match (old, new) {
        (Json::Object(es), Json::Object(es2)) => {
            let i = key_index(es@, "variant"@);
            lemma_key_index(es@, "variant"@);
            lemma_key_index(es@, k);
            if i >= 0 {
                assert forall|j: int| 0 <= j < es@.len() implies #[trigger] es2@[j].0 == es@[j].0 by {
                    if j != i {
                        assert(es2@[j] == es@[j]);
                    }
                }
                lemma_key_index_same_names(es@, es2@, "variant"@);
                lemma_key_index_same_names(es@, es2@, k);
                if k != "variant"@ {
                    let jk = key_index(es@, k);
                    if jk >= 0 {
                        assert(jk != i);
                        assert(es2@[jk] == es@[jk]);
                    }
                }
            } else {
                assert(es2@ == es@.push(es2@.last()));
                lemma_key_index_push(es@, es2@.last(), "variant"@);
                lemma_key_index_push(es@, es2@.last(), k);
                let jk = key_index(es@, k);
                if jk >= 0 {
                    assert(es2@[jk] == es@[jk]);
                }
            }
        },
        _ => {},
    }
}

/// A written runtime selector reads back: after `write_runtime_mode(doc, v)`
/// succeeds, `read_runtime_mode(doc)` gives `v`.
pub proof fn law_runtime_mode_roundtrip(old: Json, new: Json, value: Seq<char>)
    requires
        runtime_mode_written(old, new, value),
    ensures
        runtime_mode_spec(new) == Some(value),
{
    let ss = member(old, "session_settings"@).unwrap();
    let ex = member(ss, "extra"@).unwrap();
    lemma_replaced_member(old, new, "session_settings"@, "session_settings"@);
    let ss2 = member(new, "session_settings"@).unwrap();
    lemma_replaced_member(ss, ss2, "extra"@, "extra"@);
    let ex2 = member(ss2, "extra"@).unwrap();
    lemma_replaced_member(ex, ex2, "runtime"@, "runtime"@);
    let rt = member(ex, "runtime"@).unwrap();
    let rt2 = member(ex2, "runtime"@).unwrap();
    lemma_variant_set(rt, rt2, value, "variant"@);
}

/// Writing the runtime selector changes nothing else: every other member of
/// the document, of `session_settings`, of `session_settings.extra` and of
/// `session_settings.extra.runtime` keeps its value.
pub proof fn law_runtime_mode_write_preserves(old: Json, new: Json, value: Seq<char>, k: Seq<char>)
    requires
        runtime_mode_written(old, new, value),
    ensures
        k != "session_settings"@ ==> member(new, k) == member(old, k),
        k != "extra"@ ==> then_member(member(new, "session_settings"@), k) == then_member(
            member(old, "session_settings"@),
            k,
        ),
        k != "runtime"@ ==> then_member(runtime_parent(new), k) == then_member(
            runtime_parent(old),
            k,
        ),
        k != "variant"@ ==> then_member(runtime_node(new), k) == then_member(runtime_node(old), k),
{
    let ss = member(old, "session_settings"@).unwrap();
    let ex = member(ss, "extra"@).unwrap();
    lemma_replaced_member(old, new, "session_settings"@, k);
    let ss2 = member(new, "session_settings"@).unwrap();
    lemma_replaced_member(ss, ss2, "extra"@, k);
    let ex2 = member(ss2, "extra"@).unwrap();
    lemma_replaced_member(ex, ex2, "runtime"@, k);
    let rt = member(ex, "runtime"@).unwrap();
    let rt2 = member(ex2, "runtime"@).unwrap();
    lemma_variant_set(rt, rt2, value, k);
}

#[verifier::external_type_specification]
#[verifier::external_body]
pub struct ExJsonValue(serde_json::Value);

/// What `serde_json::from_slice::<serde_json::Value>` gives for `bytes`, as a
/// `Json` tree (`None` when the bytes are not JSON). The JSON grammar is not
/// restated here.
pub uninterp spec fn json_of_bytes(bytes: Seq<u8>) -> Option<Json>;

/// What `serde_json::to_vec_pretty` writes for `doc` taken as a
/// `Value` (`None` when a number's text is not a JSON number or
/// the writer fails). The printed layout is not restated here.
pub uninterp spec fn json_pretty_bytes(doc: Json) -> Option<Seq<u8>>;

/// Turns a parsed `Value` into a `Json` tree, one variant for one
/// variant; numbers keep their printed text.
#[verifier::external_body]
fn value_into_json(v: Value) -> Json {
    match v {
        Value::Null => Json::Null,
        Value::Bool(b) => Json::Bool(b),
        Value::Number(n) => Json::Number(n.to_string()),
        Value::String(s) => Json::Str(s),
        Value::Array(a) => Json::Array(a.into_iter().map(value_into_json).collect()),
        Value::Object(m) => Json::Object(
            m.into_iter().map(|(k, v)| (k, value_into_json(v))).collect(),
        ),
    }
}

/// Turns a `Json` tree into a `Value`, one variant for one
/// variant; `None` when a number's text does not parse as a JSON number.
#[verifier::external_body]
fn json_into_value(j: &Json) -> Option<Value> {
    match j {
        Json::Null => Some(Value::Null),
        Json::Bool(b) => Some(Value::Bool(*b)),
        Json::Number(t) => t.parse::<Number>().ok().map(Value::Number),
        Json::Str(s) => Some(Value::String(s.clone())),
        Json::Array(a) => a.iter().map(json_into_value).collect::<Option<Vec<_>>>().map(
            Value::Array,
        ),
        Json::Object(m) => m.iter().map(|(k, v)| json_into_value(v).map(|v| (k.clone(), v))).collect::<
            Option<serde_json::Map<String, Value>>,
        >().map(Value::Object),
    }
}

/// Calls `serde_json::from_slice::<serde_json::Value>` and converts the
/// value; the contract names the outcome `json_of_bytes` of the bytes.
#[verifier::external_body]
pub(crate) fn parse_json_bytes(bytes: &[u8]) -> (r: Option<Json>)
    ensures
        r == json_of_bytes(bytes@),
{
    serde_json::from_slice::<Value>(bytes).ok().map(value_into_json)
}

/// Converts the tree and calls `serde_json::to_vec_pretty`; the contract
/// names the outcome `json_pretty_bytes` of the tree.
#[verifier::external_body]
fn render_json_pretty(doc: &Json) -> (r: Option<Vec<u8>>)
    ensures
        match r {
            Some(b) => json_pretty_bytes(*doc) == Some(b@),
            None => json_pretty_bytes(*doc).is_none(),
        },
{
    json_into_value(doc).and_then(|v| serde_json::to_vec_pretty(&v).ok())
}

/// Reads the runtime selector from the bytes of a `session.json`: `None`
/// when they are not JSON or the selector is missing or not a string.
pub fn read_runtime_mode_bytes(bytes: &[u8]) -> (r: Option<String>)
    ensures
        opt_view(r) == match json_of_bytes(bytes@) {
            Some(doc) => runtime_mode_spec(doc),
            None => None,
        },
{
    match parse_json_bytes(bytes) {
        None => None,
        Some(doc) => read_runtime_mode(&doc),
    }
}

/// Sets the runtime selector in the bytes of a `session.json` and returns
/// the bytes to write back: the document with only
/// `session_settings.extra.runtime.variant` changed, printed pretty.
pub fn write_runtime_mode_bytes(bytes: &[u8], variant: &str) -> (r: Result<
    Vec<u8>,
    RuntimeModeError,
>)
    ensures
        match r {
            Ok(out) => {
                &&& json_of_bytes(bytes@) matches Some(doc)
                &&& runtime_node(doc) matches Some(Json::Object(_))
                &&& exists|new: Json|
                    #[trigger] runtime_mode_written(doc, new, variant@) && json_pretty_bytes(new)
                        == Some(out@)
            },
            Err(RuntimeModeError::InvalidJson) => json_of_bytes(bytes@).is_none(),
            Err(RuntimeModeError::MissingRuntimeField) => {
                &&& json_of_bytes(bytes@) matches Some(doc)
                &&& runtime_node(doc).is_none()
            },
            Err(RuntimeModeError::RuntimeNotObject) => {
                &&& json_of_bytes(bytes@) matches Some(doc)
                &&& runtime_node(doc) matches Some(rt)
                &&& !(rt is Object)
            },
            Err(RuntimeModeError::EncodingFailed) => {
                &&& json_of_bytes(bytes@) matches Some(doc)
                &&& runtime_node(doc) matches Some(Json::Object(_))
                &&& exists|new: Json|
                    #[trigger] runtime_mode_written(doc, new, variant@) && json_pretty_bytes(
                        new,
                    ).is_none()
            },
        },
{
    let mut doc = match parse_json_bytes(bytes) {
        None => return Err(RuntimeModeError::InvalidJson),
        Some(d) => d,
    };
    let ghost before = doc;
    match write_runtime_mode(&mut doc, variant) {
        Err(e) => return Err(e),
        Ok(()) => {},
    }
    assert(runtime_mode_written(before, doc, variant@));
    match render_json_pretty(&doc) {
        Some(out) => Ok(out),
        None => Err(RuntimeModeError::EncodingFailed),
    }
}

} // verus!
