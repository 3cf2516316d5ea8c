//! Project configuration: a structured text document with one required
//! string field, `id`, naming the target build script.
use vstd::prelude::*;
use crate::DeployError;

verus! {

/// The string field named `field` of the document `text`, or `None` when the
/// document does not parse or lacks such a field; `serde_yaml` decides it.
pub uninterp spec fn yaml_str_field(text: Seq<char>, field: Seq<char>) -> Option<Seq<char>>;

/// Relies on `serde_yaml::from_str::<Value>`, `Value::get` and
/// `Value::as_str`: the string field named `field` of the parsed document.
#[verifier::external_body]
fn yaml_extract_str_field(text: &str, field: &str) -> (r: Option<String>)
    ensures
        match r {
            Some(s) => yaml_str_field(text@, field@) == Some(s@),
            None => yaml_str_field(text@, field@) is None,
        },
{
    let value: serde_yaml::Value = match serde_yaml::from_str(text) {
        Ok(v) => v,
        Err(_) => {
            return None;
        },
    };
    match value.get(field).and_then(|f| f.as_str()) {
        Some(s) => Some(s.to_owned()),
        None => None,
    }
}

/// The project configuration: the identifier of the build script to target.
pub struct ProjectConfig {
    pub id: String,
}

/// Parses the configuration document and extracts its required `id` field;
/// fails with `ConfigParseError` iff the document is malformed or the field
/// is absent or not a string.
pub fn parse_config(text: &str) -> (r: Result<ProjectConfig, DeployError>)
    ensures
        (r is Ok) <==> (yaml_str_field(text@, "id"@) is Some),
        r matches Ok(c) ==> yaml_str_field(text@, "id"@) == Some(c.id@),
        r matches Err(e) ==> e matches DeployError::ConfigParseError,
{
    match yaml_extract_str_field(text, "id") {
        Some(id) => Ok(ProjectConfig { id }),
        None => Err(DeployError::ConfigParseError),
    }
}

} // verus!
