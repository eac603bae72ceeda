//! YAML documents as plain values, and reading typed fields out of them.
//!
//! The text is parsed by `serde_yaml` into its `Value` tree, which is turned
//! one for one into a `YamlNode`.  Everything after that (which fields a
//! configuration has, their defaults, and which documents are refused) is
//! this library's own logic, stated and proved below.
//!
//! Where a string is expected, any scalar but null reads as text: a number
//! as `serde_yaml` renders it and a boolean as `true` or `false`.  The tree
//! keeps no source spelling, so `0x10`, `1e3` or `True` read as `16`,
//! `1000.0` and `true`, where a direct typed parse would keep the spelling;
//! a null where a string is required is refused.
use vstd::prelude::*;

use crate::strmap::StrMap;
use crate::text::{parses_u64, u64_value};

verus! {

/// A YAML value.  Numbers keep the text `serde_yaml` renders them with.
#[derive(Debug)]
pub enum YamlNode {
    Null,
    Bool(bool),
    Number(String),
    Str(String),
    Sequence(Vec<YamlNode>),
    Mapping(Vec<(YamlNode, YamlNode)>),
}

#[verifier::external_type_specification]
#[verifier::external_body]
pub struct ExYamlError(serde_yaml::Error);

#[verifier::external_type_specification]
#[verifier::external_body]
pub struct ExYamlValue(serde_yaml::Value);

/// The document `serde_yaml` reads from a text, `None` when it refuses it.
pub uninterp spec fn yaml_document(text: Seq<char>) -> Option<YamlNode>;

/// Turns a `serde_yaml::Value` into a `YamlNode`, variant for variant; a
/// tagged value becomes the value it tags.
#[verifier::external_body]
fn node_of_value(v: serde_yaml::Value) -> YamlNode {
    match v {
        serde_yaml::Value::Null => YamlNode::Null,
        serde_yaml::Value::Bool(b) => YamlNode::Bool(b),
        serde_yaml::Value::Number(n) => YamlNode::Number(n.to_string()),
        serde_yaml::Value::String(s) => YamlNode::Str(s),
        serde_yaml::Value::Sequence(items) => YamlNode::Sequence(items.into_iter().map(node_of_value).collect()),
        serde_yaml::Value::Mapping(m) => YamlNode::Mapping(m.into_iter().map(|(k, x)| (node_of_value(k), node_of_value(x))).collect()),
        serde_yaml::Value::Tagged(t) => node_of_value(t.value),
    }
}

/// `serde_yaml::from_str::<serde_yaml::Value>`: the document of a text, or
/// the error `serde_yaml` reports.  The result is named, not described.
#[verifier::external_body]
pub(crate) fn parse_yaml(text: &str) -> (r: Result<YamlNode, serde_yaml::Error>)
    ensures
        match r {
            Ok(n) => yaml_document(text@) == Some(n),
            Err(_) => yaml_document(text@) is None,
        },
{
    serde_yaml::from_str::<serde_yaml::Value>(text).map(node_of_value)
}

#[verifier::external_type_specification]
#[verifier::external_body]
pub struct ExJsonError(serde_json::Error);

#[verifier::external_type_specification]
#[verifier::external_body]
pub struct ExJsonValue(serde_json::Value);

/// The document `serde_json` reads from a text (JSON is a subset of YAML,
/// so its documents are `YamlNode`s too), `None` when it refuses it.
pub uninterp spec fn json_document(text: Seq<char>) -> Option<YamlNode>;

/// Turns a `serde_json::Value` into a `YamlNode`, variant for variant;
/// object members keep the order the map gives them.
#[verifier::external_body]
fn node_of_json(v: serde_json::Value) -> YamlNode {
    match v {
        serde_json::Value::Null => YamlNode::Null,
        serde_json::Value::Bool(b) => YamlNode::Bool(b),
        serde_json::Value::Number(n) => YamlNode::Number(n.to_string()),
        serde_json::Value::String(s) => YamlNode::Str(s),
        serde_json::Value::Array(items) => YamlNode::Sequence(items.into_iter().map(node_of_json).collect()),
        serde_json::Value::Object(m) => YamlNode::Mapping(m.into_iter().map(|(k, x)| (YamlNode::Str(k), node_of_json(x))).collect()),
    }
}

/// `serde_json::from_str::<serde_json::Value>`: the document of a text, or
/// the error `serde_json` reports.  The result is named, not described.
#[verifier::external_body]
pub(crate) fn parse_json(text: &str) -> (r: Result<YamlNode, serde_json::Error>)
    ensures
        match r {
            Ok(n) => json_document(text@) == Some(n),
            Err(_) => json_document(text@) is None,
        },
{
    serde_json::from_str::<serde_json::Value>(text).map(node_of_json)
}

/// `serde_yaml::Error`'s message (its `Display`).  Nothing is claimed about
/// the text.
#[verifier::external_body]
pub(crate) fn yaml_error_text(e: &serde_yaml::Error) -> String {
    e.to_string()
}

/// Whether a key node reads as the string `k`.
pub open spec fn key_is(n: YamlNode, k: Seq<char>) -> bool {
    str_of(n) == Some(k)
}

/// The value of the first entry whose key is the string `k`.
pub open spec fn lookup(es: Seq<(YamlNode, YamlNode)>, k: Seq<char>) -> Option<YamlNode>
    decreases es.len(),
{
    if es.len() == 0 {
        None
    } else if key_is(es[0].0, k) {
        Some(es[0].1)
    } else {
        lookup(es.drop_first(), k)
    }
}

/// The field `k` of a mapping node (`None` for other nodes).
pub open spec fn field(n: YamlNode, k: Seq<char>) -> Option<YamlNode> {
    match n {
        YamlNode::Mapping(es) => lookup(es@, k),
        _ => None,
    }
}

/// Whether a node is a mapping.
pub open spec fn is_map(n: YamlNode) -> bool {
    n is Mapping
}

/// The text a scalar gives where a string is expected: a string as it
/// is, a number as it is rendered, a boolean as `true` or `false`.  Null,
/// sequences and mappings give none.
pub open spec fn str_of(n: YamlNode) -> Option<Seq<char>> {
    match n {
        YamlNode::Str(s) => Some(s@),
        YamlNode::Number(t) => Some(t@),
        YamlNode::Bool(b) => Some(bool_text(b)),
        _ => None,
    }
}

pub open spec fn bool_text(b: bool) -> Seq<char> {
    if b {
        "true"@
    } else {
        "false"@
    }
}

pub open spec fn bool_of(n: YamlNode) -> Option<bool> {
    match n {
        YamlNode::Bool(b) => Some(b),
        _ => None,
    }
}

/// A non-negative integer no larger than `max`.
pub open spec fn uint_of(n: YamlNode, max: nat) -> Option<nat> {
    match n {
        YamlNode::Number(t) => if parses_u64(t@) && u64_value(t@) <= max {
            Some(u64_value(t@))
        } else {
            None
        },
        _ => None,
    }
}

/// The strings of a sequence of strings.
pub open spec fn strs_of_items(items: Seq<YamlNode>) -> Option<Seq<Seq<char>>>
    decreases items.len(),
{
    if items.len() == 0 {
        Some(Seq::empty())
    } else {
        match (strs_of_items(items.drop_last()), str_of(items.last())) {
            (Some(a), Some(s)) => Some(a.push(s)),
            _ => None,
        }
    }
}

pub open spec fn strs_of(n: YamlNode) -> Option<Seq<Seq<char>>> {
    match n {
        YamlNode::Sequence(items) => strs_of_items(items@),
        _ => None,
    }
}

/// A mapping from strings to strings; a later entry for a key replaces an
/// earlier one.
pub open spec fn str_map_of_entries(es: Seq<(YamlNode, YamlNode)>) -> Option<Map<Seq<char>, Seq<char>>>
    decreases es.len(),
{
    if es.len() == 0 {
        Some(Map::empty())
    } else {
        match (str_map_of_entries(es.drop_last()), str_of(es.last().0), str_of(es.last().1)) {
            (Some(m), Some(k), Some(v)) => Some(m.insert(k, v)),
            _ => None,
        }
    }
}

pub open spec fn str_map_of(n: YamlNode) -> Option<Map<Seq<char>, Seq<char>>> {
    match n {
        YamlNode::Mapping(es) => str_map_of_entries(es@),
        _ => None,
    }
}

/// The texts of a string map.
pub open spec fn text_map(m: Map<Seq<char>, String>) -> Map<Seq<char>, Seq<char>> {
    m.map_values(|s: String| s@)
}

/// The field `k` of a mapping node.
pub fn get_field<'a>(n: &'a YamlNode, k: &str) -> (r: Option<&'a YamlNode>)
    ensures
        match r {
            Some(v) => field(*n, k@) == Some(*v),
            None => field(*n, k@) is None,
        },
{
    match n {
        YamlNode::Mapping(es) => {
            let mut i: usize = 0;
            assert(es@.skip(0) =~= es@);
            while i < es.len()
                invariant
                    i <= es.len(),
                    lookup(es@, k@) == lookup(es@.skip(i as int), k@),
                    field(*n, k@) == lookup(es@, k@),
                decreases es.len() - i,
            {
                proof {
                    assert(es@.skip(i as int).drop_first() =~= es@.skip(i + 1));
                    assert(es@.skip(i as int)[0] == es@[i as int]);
                }
                if key_matches(&es[i].0, k) {
                    assert(lookup(es@.skip(i as int), k@) == Some(es@[i as int].1));
                    return Some(&es[i].1);
                }
                i = i + 1;
            }
            None
        },
        _ => None,
    }
}

/// Whether a key node reads as the string `k`.
pub fn key_matches(n: &YamlNode, k: &str) -> (r: bool)
    ensures
        r == key_is(*n, k@),
{
    match n {
        YamlNode::Str(s) => crate::command::str_eq(s.as_str(), k),
        YamlNode::Number(t) => crate::command::str_eq(t.as_str(), k),
        YamlNode::Bool(b) => if *b {
            crate::command::str_eq("true", k)
        } else {
            crate::command::str_eq("false", k)
        },
        _ => false,
    }
}

/// The text of a scalar read where a string is expected.
pub fn as_string(n: &YamlNode) -> (r: Option<String>)
    ensures
        match r {
            Some(s) => str_of(*n) == Some(s@),
            None => str_of(*n) is None,
        },
{
    match n {
        YamlNode::Str(s) => Some(s.clone()),
        YamlNode::Number(t) => Some(t.clone()),
        YamlNode::Bool(b) => if *b {
            Some(crate::text::owned("true"))
        } else {
            Some(crate::text::owned("false"))
        },
        _ => None,
    }
}

pub fn as_bool(n: &YamlNode) -> (r: Option<bool>)
    ensures
        r == bool_of(*n),
{
    match n {
        YamlNode::Bool(b) => Some(*b),
        _ => None,
    }
}

/// A non-negative integer no larger than `max`.
pub fn as_uint(n: &YamlNode, max: u64) -> (r: Option<u64>)
    ensures
        match r {
            Some(v) => uint_of(*n, max as nat) == Some(v as nat),
            None => uint_of(*n, max as nat) is None,
        },
{
    match n {
        YamlNode::Number(t) => match crate::text::parse_u64(t.as_str()) {
            Some(v) => if v <= max {
                Some(v)
            } else {
                None
            },
            None => None,
        },
        _ => None,
    }
}

pub fn as_strings(n: &YamlNode) -> (r: Option<Vec<String>>)
    ensures
        match r {
            Some(v) => strs_of(*n) == Some(crate::text::string_views(v@)),
            None => strs_of(*n) is None,
        },
{
    match n {
        YamlNode::Sequence(items) => {
            let mut out: Vec<String> = Vec::new();
            let mut i: usize = 0;
            while i < items.len()
                invariant
                    i <= items.len(),
                    strs_of_items(items@.take(i as int)) == Some(crate::text::string_views(out@)),
                    strs_of(*n) == strs_of_items(items@),
                decreases items.len() - i,
            {
                proof {
                    assert(items@.take(i + 1).drop_last() =~= items@.take(i as int));
                    assert(items@.take(i + 1).last() == items@[i as int]);
                }
                match as_string(&items[i]) {
                    Some(s) => {
                        let ghost prev = out@;
                        let ghost sv = s@;
                        out.push(s);
                        proof {
                            assert(crate::text::string_views(out@) =~= crate::text::string_views(
                                prev,
                            ).push(sv));
                        }
                    },
                    None => {
                        proof {
                            assert(str_of(items@[i as int]) is None);
                            assert(strs_of_items(items@.take(i + 1)) is None);
                            lemma_strs_prefix_fails(items@, i as int + 1);
                        }
                        return None;
                    },
                }
                i = i + 1;
            }
            assert(items@.take(items.len() as int) =~= items@);
            Some(out)
        },
        _ => None,
    }
}

/// Once a prefix of the items is not all strings, the whole is not.
proof fn lemma_strs_prefix_fails(items: Seq<YamlNode>, j: int)
    requires
        0 <= j <= items.len(),
        strs_of_items(items.take(j)) is None,
    ensures
        strs_of_items(items) is None,
    decreases items.len() - j,
{
    if j < items.len() {
        assert(items.take(j + 1).drop_last() =~= items.take(j));
        lemma_strs_prefix_fails(items, j + 1);
    } else {
        assert(items.take(j) =~= items);
    }
}

/// Once a prefix of the entries is not all string pairs, the whole is not.
proof fn lemma_str_map_prefix_fails(es: Seq<(YamlNode, YamlNode)>, j: int)
    requires
        0 <= j <= es.len(),
        str_map_of_entries(es.take(j)) is None,
    ensures
        str_map_of_entries(es) is None,
    decreases es.len() - j,
{
    if j < es.len() {
        assert(es.take(j + 1).drop_last() =~= es.take(j));
        lemma_str_map_prefix_fails(es, j + 1);
    } else {
        assert(es.take(j) =~= es);
    }
}

pub fn as_string_map(n: &YamlNode) -> (r: Option<StrMap<String>>)
    ensures
        match r {
            Some(m) => str_map_of(*n) == Some(text_map(m@)),
            None => str_map_of(*n) is None,
        },
{
    match n {
        YamlNode::Mapping(es) => {
            let mut out: StrMap<String> = StrMap::new();
            let mut i: usize = 0;
            proof {
                assert(text_map(out@) =~= Map::<Seq<char>, Seq<char>>::empty());
            }
            while i < es.len()
                invariant
                    i <= es.len(),
                    str_map_of_entries(es@.take(i as int)) == Some(text_map(out@)),
                    str_map_of(*n) == str_map_of_entries(es@),
                decreases es.len() - i,
            {
                proof {
                    assert(es@.take(i + 1).drop_last() =~= es@.take(i as int));
                    assert(es@.take(i + 1).last() == es@[i as int]);
                }
                match (as_string(&es[i].0), as_string(&es[i].1)) {
                    (Some(k), Some(v)) => {
                        let ghost before = out@;
                        let ghost (kv, vv) = (k@, v@);
                        let _ = out.insert(k, v);
                        proof {
                            assert(text_map(out@) =~= text_map(before).insert(kv, vv));
                        }
                    },
                    _ => {
                        proof {
                            assert(str_of(es@[i as int].0) is None || str_of(es@[i as int].1) is None);
                            assert(str_map_of_entries(es@.take(i + 1)) is None);
                            lemma_str_map_prefix_fails(es@, i as int + 1);
                        }
                        return None;
                    },
                }
                i = i + 1;
            }
            assert(es@.take(es.len() as int) =~= es@);
            Some(out)
        },
        _ => None,
    }
}


// ---------------------------------------------------------------------------
// Fields.  A field that is absent takes its default; an optional field may
// also be null.  `None` below means the document is refused.
// ---------------------------------------------------------------------------

/// An optional string field.
pub open spec fn opt_str_field(n: YamlNode, k: Seq<char>) -> Option<Option<Seq<char>>> {
    match field(n, k) {
        None => Some(None),
        Some(YamlNode::Null) => Some(None),
        Some(v) => match str_of(v) {
            Some(s) => Some(Some(s)),
            None => None,
        },
    }
}

/// A string field that must be present.
pub open spec fn req_str_field(n: YamlNode, k: Seq<char>) -> Option<Seq<char>> {
    match field(n, k) {
        None => None,
        Some(v) => str_of(v),
    }
}

/// A string field with a default.
pub open spec fn str_field_or(n: YamlNode, k: Seq<char>, d: Seq<char>) -> Option<Seq<char>> {
    match field(n, k) {
        None => Some(d),
        Some(v) => str_of(v),
    }
}

/// A boolean field with a default.
pub open spec fn bool_field_or(n: YamlNode, k: Seq<char>, d: bool) -> Option<bool> {
    match field(n, k) {
        None => Some(d),
        Some(v) => bool_of(v),
    }
}

/// An optional integer field no larger than `max`.
pub open spec fn opt_uint_field(n: YamlNode, k: Seq<char>, max: nat) -> Option<Option<nat>> {
    match field(n, k) {
        None => Some(None),
        Some(YamlNode::Null) => Some(None),
        Some(v) => match uint_of(v, max) {
            Some(x) => Some(Some(x)),
            None => None,
        },
    }
}

/// An integer field no larger than `max`, with a default.
pub open spec fn uint_field_or(n: YamlNode, k: Seq<char>, max: nat, d: nat) -> Option<nat> {
    match field(n, k) {
        None => Some(d),
        Some(v) => uint_of(v, max),
    }
}

/// A list-of-strings field, empty when absent.
pub open spec fn strs_field(n: YamlNode, k: Seq<char>) -> Option<Seq<Seq<char>>> {
    match field(n, k) {
        None => Some(Seq::empty()),
        Some(v) => strs_of(v),
    }
}

/// A list-of-strings field that must be present.
pub open spec fn req_strs_field(n: YamlNode, k: Seq<char>) -> Option<Seq<Seq<char>>> {
    match field(n, k) {
        None => None,
        Some(v) => strs_of(v),
    }
}

/// A string-to-string map field, empty when absent.
pub open spec fn str_map_field(n: YamlNode, k: Seq<char>) -> Option<Map<Seq<char>, Seq<char>>> {
    match field(n, k) {
        None => Some(Map::empty()),
        Some(v) => str_map_of(v),
    }
}

/// The text of an optional string.
pub open spec fn opt_text(o: Option<String>) -> Option<Seq<char>> {
    match o {
        Some(s) => Some(s@),
        None => None,
    }
}

pub fn read_opt_str(n: &YamlNode, k: &str) -> (r: Result<Option<String>, ()>)
    ensures
        match r {
            Ok(o) => opt_str_field(*n, k@) == Some(opt_text(o)),
            Err(_) => opt_str_field(*n, k@) is None,
        },
{
    match get_field(n, k) {
        None => Ok(None),
        Some(YamlNode::Null) => Ok(None),
        Some(v) => match as_string(v) {
            Some(s) => Ok(Some(s)),
            None => Err(()),
        },
    }
}

pub fn read_req_str(n: &YamlNode, k: &str) -> (r: Result<String, ()>)
    ensures
        match r {
            Ok(s) => req_str_field(*n, k@) == Some(s@),
            Err(_) => req_str_field(*n, k@) is None,
        },
{
    match get_field(n, k) {
        None => Err(()),
        Some(v) => match as_string(v) {
            Some(s) => Ok(s),
            None => Err(()),
        },
    }
}

pub fn read_str_or(n: &YamlNode, k: &str, d: &str) -> (r: Result<String, ()>)
    ensures
        match r {
            Ok(s) => str_field_or(*n, k@, d@) == Some(s@),
            Err(_) => str_field_or(*n, k@, d@) is None,
        },
{
    match get_field(n, k) {
        None => Ok(crate::text::owned(d)),
        Some(v) => match as_string(v) {
            Some(s) => Ok(s),
            None => Err(()),
        },
    }
}

pub fn read_bool_or(n: &YamlNode, k: &str, d: bool) -> (r: Result<bool, ()>)
    ensures
        match r {
            Ok(b) => bool_field_or(*n, k@, d) == Some(b),
            Err(_) => bool_field_or(*n, k@, d) is None,
        },
{
    match get_field(n, k) {
        None => Ok(d),
        Some(v) => match as_bool(v) {
            Some(b) => Ok(b),
            None => Err(()),
        },
    }
}

pub fn read_opt_uint(n: &YamlNode, k: &str, max: u64) -> (r: Result<Option<u64>, ()>)
    ensures
        match r {
            Ok(Some(x)) => opt_uint_field(*n, k@, max as nat) == Some(Some(x as nat)) && x <= max,
            Ok(None) => opt_uint_field(*n, k@, max as nat) == Some(None::<nat>),
            Err(_) => opt_uint_field(*n, k@, max as nat) is None,
        },
{
    match get_field(n, k) {
        None => Ok(None),
        Some(YamlNode::Null) => Ok(None),
        Some(v) => match as_uint(v, max) {
            Some(x) => Ok(Some(x)),
            None => Err(()),
        },
    }
}

pub fn read_uint_or(n: &YamlNode, k: &str, max: u64, d: u64) -> (r: Result<u64, ()>)
    requires
        d <= max,
    ensures
        match r {
            Ok(x) => uint_field_or(*n, k@, max as nat, d as nat) == Some(x as nat) && x <= max,
            Err(_) => uint_field_or(*n, k@, max as nat, d as nat) is None,
        },
{
    match get_field(n, k) {
        None => Ok(d),
        Some(v) => match as_uint(v, max) {
            Some(x) => Ok(x),
            None => Err(()),
        },
    }
}

pub fn read_strs(n: &YamlNode, k: &str) -> (r: Result<Vec<String>, ()>)
    ensures
        match r {
            Ok(v) => strs_field(*n, k@) == Some(crate::text::string_views(v@)),
            Err(_) => strs_field(*n, k@) is None,
        },
{
    match get_field(n, k) {
        None => {
            let v: Vec<String> = Vec::new();
            assert(crate::text::string_views(v@) =~= Seq::<Seq<char>>::empty());
            Ok(v)
        },
        Some(x) => match as_strings(x) {
            Some(v) => Ok(v),
            None => Err(()),
        },
    }
}

pub fn read_req_strs(n: &YamlNode, k: &str) -> (r: Result<Vec<String>, ()>)
    ensures
        match r {
            Ok(v) => req_strs_field(*n, k@) == Some(crate::text::string_views(v@)),
            Err(_) => req_strs_field(*n, k@) is None,
        },
{
    match get_field(n, k) {
        None => Err(()),
        Some(x) => match as_strings(x) {
            Some(v) => Ok(v),
            None => Err(()),
        },
    }
}

pub fn read_str_map(n: &YamlNode, k: &str) -> (r: Result<StrMap<String>, ()>)
    ensures
        match r {
            Ok(m) => str_map_field(*n, k@) == Some(text_map(m@)),
            Err(_) => str_map_field(*n, k@) is None,
        },
{
    match get_field(n, k) {
        None => {
            let m: StrMap<String> = StrMap::new();
            assert(text_map(m@) =~= Map::<Seq<char>, Seq<char>>::empty());
            Ok(m)
        },
        Some(x) => match as_string_map(x) {
            Some(m) => Ok(m),
            None => Err(()),
        },
    }
}

} // verus!
