use vstd::prelude::*;

use crate::config::{cv_view, ConfigData, ConfigEntry, ConfigValue};

verus! {

#[verifier::external_type_specification]
#[verifier::external_body]
pub struct ExYamlValue(serde_yaml::Value);

#[verifier::external_type_specification]
#[verifier::external_body]
pub struct ExYamlNumber(serde_yaml::Number);

#[verifier::external_type_specification]
#[verifier::external_body]
pub struct ExYamlMapping(serde_yaml::Mapping);

/// What parsing a YAML text yields in the library's model: a configuration
/// value when the text is one YAML document whose mappings all have string
/// keys, and nothing otherwise. Parsing is a pure function of the text.
pub uninterp spec fn yaml_value_of(s: Seq<char>) -> Option<ConfigData>;

/// Relies on serde_yaml's `from_str` for `serde_yaml::Value`: deterministic
/// in the text, mappings kept in document order. The parsed tree is carried
/// over value for value by the helpers below.
#[verifier::external_body]
pub(crate) fn parse_yaml(text: &str) -> (r: Option<ConfigValue>)
    ensures
        r is Some <==> yaml_value_of(text@) is Some,
        r matches Some(v) ==> Some(cv_view(v)) == yaml_value_of(text@),
{
    match serde_yaml::from_str::<serde_yaml::Value>(text) {
        Ok(v) => convert_value(v),
        Err(_) => None,
    }
}

/// Relies on the variants of `serde_yaml::Value`: each is carried to the
/// library's own configuration value, one arm per variant; a tagged value is
/// carried as the value under the tag.
#[verifier::external_body]
fn convert_value(v: serde_yaml::Value) -> (r: Option<ConfigValue>) {
    match v {
        serde_yaml::Value::Null => Some(ConfigValue::Null),
        serde_yaml::Value::Bool(b) => Some(ConfigValue::Bool(b)),
        serde_yaml::Value::Number(n) => Some(convert_number(n)),
        serde_yaml::Value::String(s) => Some(ConfigValue::Str(s)),
        serde_yaml::Value::Sequence(items) => convert_sequence(items),
        serde_yaml::Value::Mapping(m) => convert_mapping(m),
        serde_yaml::Value::Tagged(t) => convert_value(t.value),
    }
}

/// Relies on `serde_yaml::Number::as_i64`: a number is carried as an integer
/// when it is one, and as its rendered text otherwise.
#[verifier::external_body]
fn convert_number(n: serde_yaml::Number) -> (r: ConfigValue) {
    match n.as_i64() {
        Some(i) => ConfigValue::Int(i),
        None => ConfigValue::Str(format!("{}", n)),
    }
}

/// Carries a YAML sequence over element for element.
#[verifier::external_body]
fn convert_sequence(items: Vec<serde_yaml::Value>) -> (r: Option<ConfigValue>) {
    let mut out: Vec<ConfigValue> = Vec::new();
    for item in items {
        out.push(convert_value(item)?);
    }
    Some(ConfigValue::List(out))
}

/// Relies on `serde_yaml::Mapping` iteration: entries come in document order.
/// Each entry is carried over as a key/value pair; a non-string key refuses
/// the whole value.
#[verifier::external_body]
fn convert_mapping(m: serde_yaml::Mapping) -> (r: Option<ConfigValue>) {
    let mut out: Vec<ConfigEntry> = Vec::new();
    for (k, v) in m {
        match (k, convert_value(v)) {
            (serde_yaml::Value::String(key), Some(value)) => out.push(ConfigEntry { key, value }),
            _ => return None,
        }
    }
    Some(ConfigValue::Mapping(out))
}

} // verus!
