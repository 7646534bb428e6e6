//! The configuration: one YAML document that names the region to work in,
//! under `spec`, as `region`.
//!
//! Reading YAML is the work of `serde_yaml`. This module says where in the
//! document the region stands and what is wrong when it does not.

use vstd::prelude::*;

verus! {

/// `serde_yaml::Value`: one node of a YAML document. Nothing of its inside
/// is known here.
#[verifier::external_type_specification]
#[verifier::external_body]
pub struct ExYamlValue(serde_yaml::Value);

/// `serde_yaml::Error`: why a text is no YAML document. Nothing of its
/// inside is known here.
#[verifier::external_type_specification]
#[verifier::external_body]
pub struct ExYamlError(serde_yaml::Error);

/// The strings that a YAML node holds, each under the path of mapping keys
/// that leads to it from the node; a node that is itself a string holds it
/// under the empty path. Only string keys make a path, only string
/// scalars are held, and a tag on a node is looked through. This names
/// what a `serde_yaml::Value` holds; nothing computes it here.
pub uninterp spec fn yaml_strings(node: serde_yaml::Value) -> Map<Seq<Seq<char>>, Seq<char>>;

/// The strings of the document that `serde_yaml::from_str` reads from a
/// text; `None` for a text that it rejects. This names the result of that
/// call; nothing computes it here.
pub uninterp spec fn yaml_document(text: Seq<char>) -> Option<Map<Seq<Seq<char>>, Seq<char>>>;

/// Where the configuration is read from. The path is fixed.
pub const CONFIG_FILE_PATH: &'static str = "/etc/ec2_connect_config.yaml";

/// The configuration of one run.
#[derive(Clone, Debug, PartialEq, Eq)]
pub struct Config {
    pub region: String,
}

/// Why there is no configuration.
#[derive(Clone, Debug, PartialEq, Eq)]
pub enum ConfigError {
    /// The file could not be read; the reason is the reader's.
    Unreadable(String),
    /// The text is no YAML document; the complaint is the parser's.
    Malformed(String),
    /// The document has no string under `spec`, `region`.
    MissingRegion,
}

/// What a [`ConfigError`] holds, as plain values.
pub enum ConfigErrorView {
    Unreadable(Seq<char>),
    Malformed(Seq<char>),
    MissingRegion,
}

impl View for ConfigError {
    type V = ConfigErrorView;

    open spec fn view(&self) -> ConfigErrorView {
        match *self {
            ConfigError::Unreadable(reason) => ConfigErrorView::Unreadable(reason@),
            ConfigError::Malformed(complaint) => ConfigErrorView::Malformed(complaint@),
            ConfigError::MissingRegion => ConfigErrorView::MissingRegion,
        }
    }
}

/// The path of the region in the document.
pub open spec fn region_path() -> Seq<Seq<char>> {
    seq!["spec"@, "region"@]
}

/// The region that a document names, if it names one.
pub open spec fn region_of(strings: Map<Seq<Seq<char>>, Seq<char>>) -> Option<Seq<char>> {
    if strings.contains_key(region_path()) {
        Some(strings[region_path()])
    } else {
        None
    }
}

/// `r` is what a configuration text leads to: the region that its
/// document names; `MissingRegion` where the document names none;
/// `Malformed` where the text is no document.
pub open spec fn is_config_of(text: Seq<char>, r: Result<Config, ConfigError>) -> bool {
    match yaml_document(text) {
        None => r is Err && r->Err_0 is Malformed,
        Some(strings) => match region_of(strings) {
            Some(region) => r is Ok && r->Ok_0.region@ == region,
            None => r is Err && r->Err_0 is MissingRegion,
        },
    }
}

/// Calls `serde_yaml::from_str` for a `serde_yaml::Value`. Claimed: the
/// call depends on the text alone, and what it returns is the document
/// that [`yaml_document`] names, with the strings that [`yaml_strings`]
/// names; an error where there is none.
#[verifier::external_body]
fn parse_yaml(text: &str) -> (r: Result<serde_yaml::Value, serde_yaml::Error>)
    ensures
        match r {
            Ok(node) => yaml_document(text@) == Some(yaml_strings(node)),
            Err(_) => yaml_document(text@) is None,
        },
{
    serde_yaml::from_str::<serde_yaml::Value>(text)
}

/// Indexes a `serde_yaml::Value` by a string key (`Index::index`).
/// Claimed: it never fails, and the node it returns holds under a path
/// what `node` holds under `key` followed by that path; so it holds
/// nothing where `node` is no mapping or lacks the key.
#[verifier::external_body]
fn yaml_child<'a>(node: &'a serde_yaml::Value, key: &str) -> (child: &'a serde_yaml::Value)
    ensures
        forall|path: Seq<Seq<char>>| #[trigger]
            yaml_strings(*child).contains_key(path) <==> yaml_strings(*node).contains_key(
                seq![key@] + path,
            ),
        forall|path: Seq<Seq<char>>| #[trigger]
            yaml_strings(*child).contains_key(path) ==> yaml_strings(*child)[path] == yaml_strings(
                *node,
            )[seq![key@] + path],
{
    &node[key]
}

/// Calls `serde_yaml::Value::as_str`. Claimed: it returns the string that
/// the node is, which is what the node holds under the empty path, and
/// `None` for a node that is no string.
#[verifier::external_body]
fn yaml_text(node: &serde_yaml::Value) -> (r: Option<String>)
    ensures
        match r {
            Some(s) => yaml_strings(*node).contains_key(Seq::empty()) && yaml_strings(
                *node,
            )[Seq::empty()] == s@,
            None => !yaml_strings(*node).contains_key(Seq::empty()),
        },
{
    node.as_str().map(str::to_owned)
}

/// The region that a document names: the string under `spec`, `region`.
pub fn region_in(document: &serde_yaml::Value) -> (region: Option<String>)
    ensures
        region.deep_view() == region_of(yaml_strings(*document)),
{
    let section = yaml_child(document, "spec");
    let node = yaml_child(section, "region");
    let region = yaml_text(node);
    proof {
        let empty = Seq::<Seq<char>>::empty();
        assert(seq!["region"@] + empty =~= seq!["region"@]);
        assert(seq!["spec"@] + seq!["region"@] =~= region_path());
        assert(yaml_strings(*node).contains_key(empty) <==> yaml_strings(*section).contains_key(
            seq!["region"@],
        ));
        assert(yaml_strings(*section).contains_key(seq!["region"@]) <==> yaml_strings(
            *document,
        ).contains_key(region_path()));
    }
    region
}

/// Reads the configuration from the text of its file: the region that the
/// document names under `spec`, `region`. A text that is no YAML document
/// is `Malformed`; a document without that string is `MissingRegion`.
pub fn parse_config(text: &str) -> (r: Result<Config, ConfigError>)
    ensures
        is_config_of(text@, r),
{
    match parse_yaml(text) {
        Err(e) => Err(ConfigError::Malformed(e.to_string())),
        Ok(document) => match region_in(&document) {
            Some(region) => Ok(Config { region }),
            None => Err(ConfigError::MissingRegion),
        },
    }
}

/// The configuration from the outcome of reading its file: the text is
/// parsed; a file that could not be read is `Unreadable`, with the
/// reader's reason.
pub fn load_config(source: &Result<String, String>) -> (r: Result<Config, ConfigError>)
    ensures
        match *source {
            Ok(text) => is_config_of(text@, r),
            Err(reason) => r is Err && r->Err_0@ == ConfigErrorView::Unreadable(reason@),
        },
{
    match source {
        Ok(text) => parse_config(text.as_str()),
        Err(reason) => Err(ConfigError::Unreadable(reason.clone())),
    }
}

} // verus!
