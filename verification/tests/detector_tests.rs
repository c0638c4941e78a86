use devflow_exec::detector::build_detection_result;
use devflow_exec::detector::classify_project;
use devflow_exec::detector::package_scripts;

#[test]
fn test_classify_full_stack() {
    assert_eq!(classify_project(true, false, true, false, false), "full-stack");
    assert_eq!(classify_project(false, true, true, false, false), "full-stack");
}

#[test]
fn test_classify_docker_only() {
    assert_eq!(classify_project(true, false, false, false, false), "docker-only");
    assert_eq!(classify_project(false, true, false, true, true), "docker-only");
}

#[test]
fn test_classify_script_only() {
    assert_eq!(classify_project(false, false, true, false, false), "script-only");
    assert_eq!(classify_project(false, false, false, true, false), "script-only");
    assert_eq!(classify_project(false, false, false, false, true), "script-only");
}

#[test]
fn test_classify_empty() {
    assert_eq!(classify_project(false, false, false, false, false), "empty");
}

#[test]
fn test_package_scripts_from_manifest() {
    let manifest = "{\"name\":\"demo\",\"scripts\":{\"build\":\"cc\",\"dev\":\"run\"}}";
    let scripts = package_scripts(manifest);
    assert_eq!(scripts, vec!["build".to_string(), "dev".to_string()]);
}

#[test]
fn test_package_scripts_absent_or_invalid() {
    assert!(package_scripts("{\"name\":\"demo\"}").is_empty());
    assert!(package_scripts("not json at all").is_empty());
    assert!(package_scripts("{\"scripts\":42}").is_empty());
}

#[test]
fn test_build_detection_result_assembles_markers() {
    let manifest = "{\"scripts\":{\"test\":\"t\"}}";
    let result = build_detection_result(true, true, true, false, false, false, Some(manifest));
    assert!(result.has_docker);
    assert!(result.has_git);
    assert!(result.has_node);
    assert!(!result.has_makefile);
    assert!(!result.has_requirements);
    assert!(!result.has_docker_compose);
    assert_eq!(result.detected_type, "full-stack");
    assert_eq!(result.package_scripts, vec!["test".to_string()]);
}

#[test]
fn test_build_detection_result_without_manifest() {
    let result = build_detection_result(false, false, false, false, false, false, None);
    assert_eq!(result.detected_type, "empty");
    assert!(result.package_scripts.is_empty());
}
