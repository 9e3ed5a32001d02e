//! The bridge between the library's value model and the JSON values
//! that the parsing, query and templating crates exchange.

use std::str::FromStr;
use vstd::prelude::*;

verus! {

#[verifier::external_type_specification]
#[verifier::external_body]
pub struct ExJsonValue(serde_json::Value);

/// Relies on the `serde_json::Value` constructors alone: rebuilds the
/// value in the library's own model, field for field; a number becomes
/// its canonical decimal text.
#[verifier::external_body]
pub(crate) fn json_to_value(v: &serde_json::Value) -> crate::value::Json {
    match v {
        serde_json::Value::Null => crate::value::Json::Null,
        serde_json::Value::Bool(b) => crate::value::Json::Bool(*b),
        serde_json::Value::Number(n) => crate::value::Json::Num(n.to_string()),
        serde_json::Value::String(s) => crate::value::Json::Str(s.clone()),
        serde_json::Value::Array(a) => crate::value::Json::Arr(a.iter().map(json_to_value).collect()),
        serde_json::Value::Object(m) => crate::value::Json::Obj(
            m.iter().map(|(k, x)| (k.clone(), json_to_value(x))).collect(),
        ),
    }
}

/// Relies on the `serde_json::Value` constructors alone: rebuilds the
/// library's value as a JSON value, field for field; a number text that
/// no longer reads as a number becomes null.
#[verifier::external_body]
pub(crate) fn value_to_json(v: &crate::value::Json) -> serde_json::Value {
    match v {
        crate::value::Json::Null => serde_json::Value::Null,
        crate::value::Json::Bool(b) => serde_json::Value::Bool(*b),
        crate::value::Json::Num(s) => match serde_json::Number::from_str(s) {
            Ok(n) => serde_json::Value::Number(n),
            Err(_) => serde_json::Value::Null,
        },
        crate::value::Json::Str(s) => serde_json::Value::String(s.clone()),
        crate::value::Json::Arr(a) => serde_json::Value::Array(a.iter().map(value_to_json).collect()),
        crate::value::Json::Obj(o) => serde_json::Value::Object(
            o.iter().map(|(k, x)| (k.clone(), value_to_json(x))).collect(),
        ),
    }
}

#[verifier::external_type_specification]
#[verifier::external_body]
pub struct ExHandlebars<'reg>(handlebars::Handlebars<'reg>);

/// Relies on `handlebars::Handlebars::render_template`: renders a
/// template string against the data. What comes back depends on the
/// engine's registered templates, partials and helpers, so nothing more
/// is promised of it.
#[verifier::external_body]
pub fn render_template(
    h: &handlebars::Handlebars,
    tpl: &str,
    data: &crate::value::Json,
) -> Result<String, String> {
    let doc = value_to_json(data);
    match h.render_template(tpl, &doc) {
        Ok(s) => Ok(s),
        Err(e) => Err(e.to_string()),
    }
}

/// Relies on `handlebars::Handlebars::render`: renders a registered
/// template against the data. What comes back depends on the engine's
/// registry, so nothing more is promised of it.
#[verifier::external_body]
pub fn render_registered(
    h: &handlebars::Handlebars,
    name: &str,
    data: &crate::value::Json,
) -> Result<String, String> {
    let doc = value_to_json(data);
    match h.render(name, &doc) {
        Ok(s) => Ok(s),
        Err(e) => Err(e.to_string()),
    }
}

} // verus!
