//! A verified command execution engine: profile-based command resolution
//! (native, docker, ssh), shell escaping, supervisory-loop decisions
//! (timeout, kill, resource maxima), result aggregation, project-type
//! detection, and secret storage in the OS credential store.

pub mod detector;
pub mod outcome;
pub mod profile;
pub mod secure_storage;
pub mod supervisor;

pub use detector::DetectionResult;
pub use secure_storage::SecretEntry;
pub use secure_storage::delete_secret;
pub use secure_storage::get_secret;
pub use secure_storage::secret_exists;
pub use secure_storage::store_secret;

pub use outcome::CommandResult;
pub use outcome::aggregate_result;
pub use supervisor::ExecutionMetrics;
pub use supervisor::PollEvent;
pub use supervisor::StepAction;
pub use supervisor::SupervisorState;
pub use supervisor::run_supervision;
pub use supervisor::supervise_step;
pub use profile::DockerConfig;
pub use profile::ExecutionProfile;
pub use profile::SshConfig;
pub use profile::detect_shell;
pub use profile::resolve_command;
pub use profile::shell_escape;
pub use profile::wrap_for_docker;
pub use profile::wrap_for_ssh;
