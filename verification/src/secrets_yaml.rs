//! The edit of the decrypted secrets file that stores a credentials profile: the
//! YAML document of the `serde_yml` crate, the plain model it is read as, and the
//! insertion of the profile's variables under `credentials`, every other part of the
//! document kept as it is.
use vstd::prelude::*;
use serde_yml::{Mapping, Value};
use serde_yml::value::Tag;
use crate::text::{cat, cat3, is_prefix, pair_views};

verus! {

#[verifier::external_type_specification]
#[verifier::external_body]
pub struct ExYamlValue(Value);

#[verifier::external_type_specification]
#[verifier::external_body]
pub struct ExYamlMapping(Mapping);

#[verifier::external_type_specification]
#[verifier::external_body]
pub struct ExYamlTag(Tag);

/// What a YAML value holds, as far as the edit reads it: a mapping as its entries in
/// order, a string as its text, a tagged value as its tag and the value it tags, and
/// any other value as itself.
pub enum YamlModel {
    Entries(Seq<(YamlModel, YamlModel)>),
    Text(Seq<char>),
    Tagged(Tag, Box<YamlModel>),
    Other(Value),
}

/// What a value holds (`Value`'s variants, read through `Mapping`'s entries in order).
pub uninterp spec fn yaml_model(v: Value) -> YamlModel;

/// The entries of a mapping, in order.
pub uninterp spec fn yaml_entries(m: Mapping) -> Seq<(YamlModel, YamlModel)>;

/// What `serde_yml::from_str` reads from a text as a `Value`, or `None` where it
/// refuses the text.
pub uninterp spec fn yaml_parsed(text: Seq<char>) -> Option<YamlModel>;

/// The text that `serde_yml::to_string` prints a value as, or `None` where it fails.
pub uninterp spec fn yaml_text(v: Value) -> Option<Seq<char>>;

/// A value without the tags around it.
pub open spec fn untagged(m: YamlModel) -> YamlModel
    decreases m,
{
    match m {
        YamlModel::Tagged(_, b) => untagged(*b),
        _ => m,
    }
}

/// A value with what stands under its tags replaced.
pub open spec fn with_untagged(m: YamlModel, inner: YamlModel) -> YamlModel
    decreases m,
{
    match m {
        YamlModel::Tagged(t, b) => YamlModel::Tagged(t, Box::new(with_untagged(*b, inner))),
        _ => inner,
    }
}

/// The position of the entry whose key is the string `key`, if any (a mapping holds
/// a key once).
pub open spec fn str_key_at(es: Seq<(YamlModel, YamlModel)>, key: Seq<char>) -> Option<int>
    decreases es.len(),
{
    if es.len() == 0 {
        None
    } else {
        match str_key_at(es.drop_last(), key) {
            Some(i) => Some(i),
            None => if es.last().0 == YamlModel::Text(key) { Some(es.len() - 1) } else { None },
        }
    }
}

/// A mapping's entries after `insert` of the string `key` with a value: the value
/// replaced in place where the key is there, else the entry added last.
pub open spec fn inserted(es: Seq<(YamlModel, YamlModel)>, key: Seq<char>, value: YamlModel) -> Seq<(YamlModel, YamlModel)> {
    match str_key_at(es, key) {
        Some(i) => es.update(i, (es[i].0, value)),
        None => es.push((YamlModel::Text(key), value)),
    }
}

/// A mapping's entries after inserting the variables `vars` one after the other as
/// strings.
pub open spec fn inserted_all(es: Seq<(YamlModel, YamlModel)>, vars: Seq<(Seq<char>, Seq<char>)>) -> Seq<(YamlModel, YamlModel)>
    decreases vars.len(),
{
    if vars.len() == 0 {
        es
    } else {
        inserted(inserted_all(es, vars.drop_last()), vars.last().0, YamlModel::Text(vars.last().1))
    }
}

/// The message where the document has no `credentials` mapping.
pub open spec fn missing_credentials_message() -> Seq<char> {
    "secrets missing 'credentials' map"@
}

/// The message where the profile's entry is not a mapping.
pub open spec fn profile_not_map_message(profile: Seq<char>) -> Seq<char> {
    "'credentials."@ + profile + "' is not a map"@
}

/// The document with the variables `vars` stored under the profile `profile` of its
/// `credentials` mapping (the profile's mapping made, empty, where it is missing):
/// each variable replaces one of the same name or is added last. Tags around the
/// document, the `credentials` value and the profile's value are seen through and
/// kept. An error where `credentials` is missing or not a mapping, or where the
/// profile's value is not a mapping.
pub open spec fn with_profile(doc: YamlModel, profile: Seq<char>, vars: Seq<(Seq<char>, Seq<char>)>)
    -> Result<YamlModel, Seq<char>>
{
    match untagged(doc) {
        YamlModel::Entries(top) => match str_key_at(top, "credentials"@) {
            None => Err(missing_credentials_message()),
            Some(ci) => {
                let c = top[ci].1;
                match untagged(c) {
                    YamlModel::Entries(es) => {
                        let (es1, pi) = match str_key_at(es, profile) {
                            Some(i) => (es, i),
                            None => (es.push((YamlModel::Text(profile), YamlModel::Entries(Seq::empty()))), es.len() as int),
                        };
                        let cur = es1[pi].1;
                        match untagged(cur) {
                            YamlModel::Entries(pes) => {
                                let entry = with_untagged(cur, YamlModel::Entries(inserted_all(pes, vars)));
                                let c2 = with_untagged(c, YamlModel::Entries(es1.update(pi, (es1[pi].0, entry))));
                                Ok(with_untagged(doc, YamlModel::Entries(top.update(ci, (top[ci].0, c2)))))
                            },
                            _ => Err(profile_not_map_message(profile)),
                        }
                    },
                    _ => Err(missing_credentials_message()),
                }
            },
        },
        _ => Err(missing_credentials_message()),
    }
}

/// `serde_yml::from_str` into a `Value`; the error is the crate's message, of which
/// nothing is claimed.
#[verifier::external_body]
fn parse_yaml(text: &str) -> (r: Result<Value, String>)
    ensures
        match r {
            Ok(v) => yaml_parsed(text@) == Some(yaml_model(v)),
            Err(_) => yaml_parsed(text@) is None,
        },
{
    serde_yml::from_str::<Value>(text).map_err(|e| e.to_string())
}

/// `serde_yml::to_string`; the error is the crate's message, of which nothing is
/// claimed.
#[verifier::external_body]
fn print_yaml(v: &Value) -> (r: Result<String, String>)
    ensures
        match r {
            Ok(s) => yaml_text(*v) == Some(s@),
            Err(_) => yaml_text(*v) is None,
        },
{
    serde_yml::to_string(v).map_err(|e| e.to_string())
}

/// `Value::get_mut` with a string key: through the value's tags, the value of the
/// entry whose key is that string, in a mapping; a change to it is a change to that
/// entry of the document.
#[verifier::external_body]
fn get_mut_str<'a>(v: &'a mut Value, key: &str) -> (r: Option<&'a mut Value>)
    ensures
        match r {
            Some(x) => untagged(yaml_model(*old(v))) matches YamlModel::Entries(es)
                && str_key_at(es, key@) matches Some(i)
                && yaml_model(*x) == es[i].1
                && yaml_model(*final(v)) == with_untagged(yaml_model(*old(v)),
                    YamlModel::Entries(es.update(i, (es[i].0, yaml_model(*final(x)))))),
            None => !(untagged(yaml_model(*old(v))) matches YamlModel::Entries(es) && str_key_at(es, key@) is Some)
                && *final(v) == *old(v),
        },
{
    v.get_mut(key)
}

/// `Value::as_mapping_mut`: through the value's tags, the mapping it is, if it is
/// one; a change to it is a change to the value.
#[verifier::external_body]
fn as_mapping_mut<'a>(v: &'a mut Value) -> (r: Option<&'a mut Mapping>)
    ensures
        match r {
            Some(m) => untagged(yaml_model(*old(v))) == YamlModel::Entries(yaml_entries(*m))
                && yaml_model(*final(v)) == with_untagged(yaml_model(*old(v)), YamlModel::Entries(yaml_entries(*final(m)))),
            None => !(untagged(yaml_model(*old(v))) is Entries) && *final(v) == *old(v),
        },
{
    v.as_mapping_mut()
}

/// `Mapping::entry` of a string key, then `Entry::or_insert` of `default`: the value
/// of the key's entry, or `default` added last under the key; a change to it is a
/// change to that entry.
#[verifier::external_body]
fn entry_or_insert<'a>(m: &'a mut Mapping, key: &str, default: Value) -> (r: &'a mut Value)
    ensures
        match str_key_at(yaml_entries(*old(m)), key@) {
            Some(i) => yaml_model(*r) == yaml_entries(*old(m))[i].1
                && yaml_entries(*final(m)) == yaml_entries(*old(m)).update(i, (yaml_entries(*old(m))[i].0,
                    yaml_model(*final(r)))),
            None => yaml_model(*r) == yaml_model(default)
                && yaml_entries(*final(m)) == yaml_entries(*old(m)).push((YamlModel::Text(key@), yaml_model(*final(r)))),
        },
{
    m.entry(Value::String(key.to_string())).or_insert(default)
}

/// `Mapping::insert` of a string key and a string value.
#[verifier::external_body]
fn insert_str(m: &mut Mapping, key: &str, value: &str)
    ensures
        yaml_entries(*final(m)) == inserted(yaml_entries(*old(m)), key@, YamlModel::Text(value@)),
{
    m.insert(Value::String(key.to_string()), Value::String(value.to_string()));
}

/// An empty mapping value (`Value::Mapping` of `Mapping::new`).
#[verifier::external_body]
fn empty_mapping() -> (v: Value)
    ensures
        yaml_model(v) == YamlModel::Entries(Seq::empty()),
{
    Value::Mapping(Mapping::new())
}

fn prefixed(p: &str, e: &str) -> (m: String)
    ensures
        is_prefix(p@, m@),
{
    let m = cat(p, e);
    assert(m@.subrange(0, p@.len() as int) =~= p@);
    m
}

/// Inserts the variables one after the other as strings.
fn insert_all(m: &mut Mapping, vars: &Vec<(String, String)>)
    ensures
        yaml_entries(*final(m)) == inserted_all(yaml_entries(*old(m)), pair_views(vars@)),
{
    let ghost es0 = yaml_entries(*m);
    let mut i: usize = 0;
    while i < vars.len()
        invariant
            i <= vars@.len(),
            yaml_entries(*m) == inserted_all(es0, pair_views(vars@).take(i as int)),
        decreases vars.len() - i,
    {
        let (k, v) = &vars[i];
        insert_str(m, k.as_str(), v.as_str());
        assert(pair_views(vars@).take(i + 1).drop_last() =~= pair_views(vars@).take(i as int));
        i = i + 1;
    }
    assert(pair_views(vars@).take(vars@.len() as int) =~= pair_views(vars@));
}

/// Stores the variables `credentials` under the profile `profile` of the
/// `credentials` mapping of the secrets' YAML text, and prints the document.
pub fn apply_profile_to_yaml(yaml: &str, profile: &str, credentials: &Vec<(String, String)>) -> (r: Result<String, String>)
    ensures
        match yaml_parsed(yaml@) {
            None => r matches Err(m) && is_prefix("could not parse secrets: "@, m@),
            Some(doc) => match with_profile(doc, profile@, pair_views(credentials@)) {
                Err(m) => r matches Err(e) && e@ == m,
                Ok(d) => exists|v: Value| yaml_model(v) == d && match yaml_text(v) {
                    Some(t) => r matches Ok(s) && s@ == t,
                    None => r matches Err(e) && is_prefix("could not serialize secrets: "@, e@),
                },
            },
        },
{
    let mut doc = match parse_yaml(yaml) {
        Ok(d) => d,
        Err(e) => return Err(prefixed("could not parse secrets: ", e.as_str())),
    };
    let ghost d0 = yaml_model(doc);
    let ghost vars = pair_views(credentials@);
    let creds_value = match get_mut_str(&mut doc, "credentials") {
        Some(c) => c,
        None => return Err(String::from_str("secrets missing 'credentials' map")),
    };
    let ghost c0 = yaml_model(*creds_value);
    let creds_map = match as_mapping_mut(creds_value) {
        Some(m) => m,
        None => return Err(String::from_str("secrets missing 'credentials' map")),
    };
    let ghost top = untagged(d0)->Entries_0;
    let ghost ci = str_key_at(top, "credentials"@)->Some_0;
    let ghost ces = yaml_entries(*creds_map);
    assert(c0 == top[ci].1);
    assert(untagged(c0) == YamlModel::Entries(ces));
    let entry = entry_or_insert(creds_map, profile, empty_mapping());
    let ghost e0 = yaml_model(*entry);
    let entry_map = match as_mapping_mut(entry) {
        Some(m) => m,
        None => return Err(cat3("'credentials.", profile, "' is not a map")),
    };
    let ghost pes = yaml_entries(*entry_map);
    insert_all(entry_map, credentials);
    assert(yaml_entries(*entry_map) == inserted_all(pes, vars));
    assert(yaml_model(*final(entry)) == with_untagged(e0, YamlModel::Entries(inserted_all(pes, vars))));
    let ghost es1 = match str_key_at(ces, profile@) {
        Some(i) => ces,
        None => ces.push((YamlModel::Text(profile@), YamlModel::Entries(Seq::empty()))),
    };
    let ghost pi = match str_key_at(ces, profile@) {
        Some(i) => i,
        None => ces.len() as int,
    };
    assert(es1[pi].1 == e0);
    assert(yaml_entries(*final(creds_map)) =~= es1.update(pi, (es1[pi].0, yaml_model(*final(entry)))));
    assert(yaml_model(*final(creds_value)) == with_untagged(c0, YamlModel::Entries(yaml_entries(*final(creds_map)))));
    assert(with_profile(d0, profile@, pair_views(credentials@)) == Ok::<YamlModel, Seq<char>>(yaml_model(doc)));
    match print_yaml(&doc) {
        Ok(s) => Ok(s),
        Err(e) => Err(prefixed("could not serialize secrets: ", e.as_str())),
    }
}

/// The YAML of the secrets: the text that the decrypted file wraps under `data`, where
/// it does (`wrapped`), else the decrypted text itself.
pub fn secrets_yaml(decrypted: &str, wrapped: Option<String>) -> (r: String)
    ensures
        r@ == match wrapped {
            Some(d) => d@,
            None => decrypted@,
        },
{
    match wrapped {
        Some(d) => d,
        None => String::from_str(decrypted),
    }
}

} // verus!
