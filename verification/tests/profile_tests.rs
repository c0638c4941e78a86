use devflow_exec::DockerConfig;
use devflow_exec::ExecutionProfile;
use devflow_exec::SshConfig;
use devflow_exec::detect_shell;
use devflow_exec::resolve_command;
use devflow_exec::shell_escape;
use devflow_exec::wrap_for_docker;
use devflow_exec::wrap_for_ssh;

#[test]
fn test_docker_wrap_basic() {
    let cfg = DockerConfig {
        image: Some("ubuntu:22.04".to_string()),
        cpu_limit: Some("0.5".to_string()),
        mem_limit: Some("256m".to_string()),
    };
    let result = wrap_for_docker("echo hello", &Some("/tmp".to_string()), &cfg);
    assert!(result.contains("docker run --rm"));
    assert!(result.contains("--cpus=0.5"));
    assert!(result.contains("--memory=256m"));
    assert!(result.contains("ubuntu:22.04"));
    assert!(result.contains("echo hello"));
}

#[test]
fn test_ssh_wrap_basic() {
    let cfg = SshConfig {
        user: Some("deploy".to_string()),
        host: Some("prod.example.com".to_string()),
    };
    let result = wrap_for_ssh("ls -la", &cfg);
    assert!(result.contains("ssh"));
    assert!(result.contains("deploy@prod.example.com"));
    assert!(result.contains("ls -la"));
}

#[test]
fn test_shell_escape() {
    let escaped = shell_escape("echo 'hello world'");
    assert!(escaped.starts_with('\''));
    assert!(escaped.ends_with('\''));
    // single quotes escaped: each inner quote becomes the '\'' sequence
    assert_eq!(escaped, "'echo '\\''hello world'\\'''");
}

#[test]
fn test_detect_shell_not_empty() {
    let (shell, flag) = detect_shell(false, None);
    assert!(!shell.is_empty());
    assert!(!flag.is_empty());
    let (shell, flag) = detect_shell(true, None);
    assert!(!shell.is_empty());
    assert!(!flag.is_empty());
}

#[test]
fn test_shell_escape_exact() {
    assert_eq!(shell_escape("don't"), "'don'\\''t'");
    assert_eq!(shell_escape(""), "''");
    assert_eq!(shell_escape("plain"), "'plain'");
}

#[test]
fn test_docker_wrap_exact_line() {
    let cfg = DockerConfig {
        image: Some("ubuntu:22.04".to_string()),
        cpu_limit: Some("0.5".to_string()),
        mem_limit: Some("256m".to_string()),
    };
    let result = wrap_for_docker("echo hello", &Some("/tmp".to_string()), &cfg);
    assert_eq!(
        result,
        "docker run --rm --cpus=0.5 --memory=256m -v /tmp:/workspace -w /workspace ubuntu:22.04 sh -c 'echo hello'"
    );
}

#[test]
fn test_docker_wrap_defaults() {
    let cfg = DockerConfig { image: None, cpu_limit: None, mem_limit: None };
    let result = wrap_for_docker("make test", &None, &cfg);
    assert_eq!(
        result,
        "docker run --rm   -v .:/workspace -w /workspace ubuntu:22.04 sh -c 'make test'"
    );
}

#[test]
fn test_ssh_wrap_defaults() {
    let cfg = SshConfig { user: None, host: None };
    let result = wrap_for_ssh("uptime", &cfg);
    assert_eq!(result, "ssh -o StrictHostKeyChecking=no root@localhost 'uptime'");
}

#[test]
fn test_resolve_command_native() {
    let resolved = resolve_command("echo hi", &None, None, None, None);
    assert_eq!(resolved, "echo hi");
}

#[test]
fn test_resolve_command_docker_profile() {
    let resolved = resolve_command(
        "echo hi",
        &Some("/srv".to_string()),
        Some(ExecutionProfile::Docker),
        Some(DockerConfig {
            image: Some("alpine:3".to_string()),
            cpu_limit: None,
            mem_limit: None,
        }),
        None,
    );
    assert_eq!(
        resolved,
        "docker run --rm   -v /srv:/workspace -w /workspace alpine:3 sh -c 'echo hi'"
    );
}

#[test]
fn test_resolve_command_ssh_profile() {
    let resolved = resolve_command(
        "ls",
        &None,
        Some(ExecutionProfile::Ssh),
        None,
        Some(SshConfig { user: Some("deploy".to_string()), host: Some("h.example".to_string()) }),
    );
    assert_eq!(resolved, "ssh -o StrictHostKeyChecking=no deploy@h.example 'ls'");
}

#[test]
fn test_detect_shell_env_override() {
    let (shell, flag) = detect_shell(false, Some("/bin/zsh".to_string()));
    assert_eq!(shell, "/bin/zsh");
    assert_eq!(flag, "-c");
}

#[test]
fn test_detect_shell_windows() {
    let (shell, flag) = detect_shell(true, None);
    assert_eq!(shell, "powershell.exe");
    assert_eq!(flag, "-Command");
}
