//! Reading the toolchain manager's settings to find the default toolchain.

use vstd::prelude::*;

verus! {

#[verifier::external_type_specification]
#[verifier::external_body]
#[verifier::reject_recursive_types(K)]
#[verifier::reject_recursive_types(V)]
pub struct ExTomlMap<K, V>(toml::map::Map<K, V>);

#[verifier::external_type_specification]
#[verifier::external_body]
pub struct ExTomlValue(toml::Value);

#[verifier::external_type_specification]
#[verifier::external_body]
pub struct ExTomlError(toml::de::Error);

/// The top-level entries of a TOML table whose value is a string, with that string.
pub uninterp spec fn string_entries(t: toml::map::Map<String, toml::Value>) -> Map<Seq<char>, Seq<char>>;

/// The string-valued top-level entries of `text` read as a TOML document,
/// or `None` where `text` is not a valid TOML document.
pub uninterp spec fn parsed_string_entries(text: Seq<char>) -> Option<Map<Seq<char>, Seq<char>>>;

/// Relies on toml's `FromStr` impl for `toml::Table`: parses a TOML document.
/// The outcome depends on the text alone.
#[verifier::external_body]
fn parse_table(text: &str) -> (r: Result<toml::map::Map<String, toml::Value>, toml::de::Error>)
    ensures
        r is Ok <==> parsed_string_entries(text@) is Some,
        r matches Ok(t) ==> parsed_string_entries(text@) == Some(string_entries(t)),
{
    text.parse::<toml::Table>()
}

/// Relies on `toml::map::Map::get`: looks a key up among the table's entries,
/// keeping its value only where that value is a string.
#[verifier::external_body]
fn string_entry(t: &toml::map::Map<String, toml::Value>, key: &str) -> (r: Option<String>)
    ensures
        r is Some <==> string_entries(*t).contains_key(key@),
        r matches Some(s) ==> string_entries(*t)[key@] == s@,
{
    match t.get(key) {
        Some(toml::Value::String(s)) => Some(s.clone()),
        _ => None,
    }
}

/// Why the default toolchain could not be read from the settings.
#[derive(Debug, Clone, Copy, PartialEq, Eq)]
pub enum ToolchainError {
    /// The settings are valid but hold no string `default_toolchain` field.
    NotFound,
    /// The settings are not a valid TOML document.
    Malformed,
}

/// The name of the settings field that holds the default toolchain.
pub open spec fn default_toolchain_key() -> Seq<char> {
    "default_toolchain"@
}

/// The default toolchain named by the settings text, or why there is none.
pub open spec fn settings_toolchain(text: Seq<char>) -> Result<Seq<char>, ToolchainError> {
    match parsed_string_entries(text) {
        None => Err(ToolchainError::Malformed),
        Some(entries) => if entries.contains_key(default_toolchain_key()) {
            Ok(entries[default_toolchain_key()])
        } else {
            Err(ToolchainError::NotFound)
        },
    }
}

/// Reads the default toolchain out of the toolchain manager's settings text.
pub fn toolchain_from_settings(text: &str) -> (r: Result<String, ToolchainError>)
    ensures
        match r {
            Ok(name) => settings_toolchain(text@) == Ok::<Seq<char>, ToolchainError>(name@),
            Err(e) => settings_toolchain(text@) == Err::<Seq<char>, ToolchainError>(e),
        },
{
    match parse_table(text) {
        Err(_) => Err(ToolchainError::Malformed),
        Ok(table) => match string_entry(&table, "default_toolchain") {
            Some(name) => Ok(name),
            None => Err(ToolchainError::NotFound),
        },
    }
}

/// The toolchain to request explicitly for the build, given the settings text
/// if it could be read. Every failure to find one falls back to `None`, which
/// leaves the choice to the environment's own default.
pub fn toolchain_override(settings: Option<&str>) -> (r: Option<String>)
    ensures
        match settings {
            None => r is None,
            Some(text) => match settings_toolchain(text@) {
                Ok(name) => r is Some && r->0@ == name,
                Err(_) => r is None,
            },
        },
{
    match settings {
        None => None,
        Some(text) => match toolchain_from_settings(text) {
            Ok(name) => Some(name),
            Err(_) => None,
        },
    }
}

} // verus!
