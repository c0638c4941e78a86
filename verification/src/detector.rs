//! Project-type detection.
//!
//! The caller probes a project directory for well-known marker files and
//! reads the package manifest when one exists; this module classifies the
//! markers into a project type and pulls the script names out of the
//! manifest text.

use vstd::prelude::*;

verus! {

/// Which marker files a project directory holds, the script names of its
/// package manifest, and the project type the markers classify to.
#[derive(Debug)]
pub struct DetectionResult {
    pub has_docker: bool,
    pub has_git: bool,
    pub has_node: bool,
    pub has_makefile: bool,
    pub has_requirements: bool,
    pub has_docker_compose: bool,
    pub package_scripts: Vec<String>,
    pub detected_type: String,
}

/// The project type for a set of markers: container markers and a package
/// manifest together make a full-stack project; container markers alone a
/// container-only one; any of the script markers alone a script-only one;
/// nothing, an empty one.
pub open spec fn classification(
    has_docker: bool,
    has_docker_compose: bool,
    has_node: bool,
    has_makefile: bool,
    has_requirements: bool,
) -> Seq<char> {
    if (has_docker || has_docker_compose) && has_node {
        "full-stack"@
    } else if has_docker || has_docker_compose {
        "docker-only"@
    } else if has_node || has_makefile || has_requirements {
        "script-only"@
    } else {
        "empty"@
    }
}

/// The project type for a set of markers, as `classification` states it.
pub fn classify_project(
    has_docker: bool,
    has_docker_compose: bool,
    has_node: bool,
    has_makefile: bool,
    has_requirements: bool,
) -> (r: String)
    ensures
        r@ == classification(has_docker, has_docker_compose, has_node, has_makefile,
        has_requirements),
{
    if (has_docker || has_docker_compose) && has_node {
        String::from_str("full-stack")
    } else if has_docker || has_docker_compose {
        String::from_str("docker-only")
    } else if has_node || has_makefile || has_requirements {
        String::from_str("script-only")
    } else {
        String::from_str("empty")
    }
}

#[verifier::external_type_specification]
#[verifier::external_body]
pub struct ExJsonValue(serde_json::Value);

/// Relies on serde_json::from_str::<serde_json::Value>: parses JSON text
/// into its value tree when the text is valid JSON, and yields nothing
/// otherwise.
#[verifier::external_body]
fn parse_json(text: &str) -> (r: Option<serde_json::Value>) {
    serde_json::from_str::<serde_json::Value>(text).ok()
}

/// Relies on serde_json::Value::get: the member stored under the key when
/// the value is a JSON object that has one, and nothing otherwise.
#[verifier::external_body]
fn json_member<'a>(v: &'a serde_json::Value, key: &str) -> (r: Option<&'a serde_json::Value>) {
    v.get(key)
}

/// Relies on serde_json::Value::as_object and serde_json::Map::keys: the
/// keys of a JSON object, in the order the map yields them, and nothing for
/// a value that is not an object.
#[verifier::external_body]
fn json_object_keys(v: &serde_json::Value) -> (r: Option<Vec<String>>) {
    v.as_object().map(|m| m.keys().cloned().collect())
}

/// The script names of a package manifest: the keys of the `scripts` object
/// of the parsed text, and none when the text is not valid JSON, has no
/// such member, or the member is not an object.
pub fn package_scripts(package_json: &str) -> (r: Vec<String>) {
    match parse_json(package_json) {
        None => Vec::new(),
        Some(v) => match json_member(&v, "scripts") {
            None => Vec::new(),
            Some(scripts) => match json_object_keys(scripts) {
                None => Vec::new(),
                Some(keys) => keys,
            },
        },
    }
}

/// Assembles the detection record from the markers the caller found and the
/// package manifest text it read (none when the project has no manifest or
/// the file could not be read): every marker is carried over unchanged, the
/// project type is the markers' classification, and the script names come
/// from the manifest's `scripts` object.
pub fn build_detection_result(
    has_docker: bool,
    has_git: bool,
    has_node: bool,
    has_makefile: bool,
    has_requirements: bool,
    has_docker_compose: bool,
    package_json: Option<&str>,
) -> (r: DetectionResult)
    ensures
        r.has_docker == has_docker,
        r.has_git == has_git,
        r.has_node == has_node,
        r.has_makefile == has_makefile,
        r.has_requirements == has_requirements,
        r.has_docker_compose == has_docker_compose,
        r.detected_type@ == classification(has_docker, has_docker_compose, has_node, has_makefile,
        has_requirements),
        package_json is None ==> r.package_scripts@.len() == 0,
{
    let package_scripts = match package_json {
        Some(text) => package_scripts(text),
        None => Vec::new(),
    };
    let detected_type = classify_project(
        has_docker,
        has_docker_compose,
        has_node,
        has_makefile,
        has_requirements,
    );
    DetectionResult {
        has_docker,
        has_git,
        has_node,
        has_makefile,
        has_requirements,
        has_docker_compose,
        package_scripts,
        detected_type,
    }
}

} // verus!
