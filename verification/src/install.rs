//! Installation state: what is known about the model server and the
//! container runtime on this machine, and the decisions the setup flow
//! takes from it.

use vstd::prelude::*;
use crate::text;

verus! {

/// Where the model server stands on this machine.
#[derive(Debug, Clone, PartialEq, Eq)]
pub enum OllamaStatus {
    /// The server answers on its port.
    Running,
    /// The binary exists but the server does not answer.
    Installed,
    /// No binary was found.
    NotInstalled,
}

/// Where the server's container stands.
#[derive(Debug, Clone, PartialEq, Eq)]
pub enum ContainerStatus {
    /// The container exists and runs.
    Running,
    /// The container exists but is stopped.
    Stopped,
    /// No such container.
    NotFound,
}

/// What probing the machine found.
#[derive(Debug, Clone)]
pub struct SystemCapabilities {
    /// The model server's status.
    pub ollama_status: OllamaStatus,
    /// Whether a container runtime is available.
    pub docker_available: bool,
    /// Whether a download tool is available.
    pub curl_available: bool,
    /// Whether a package manager is available.
    pub brew_available: bool,
    /// The operating system's name.
    pub os: String,
}

/// Outcome of an installation attempt.
#[derive(Debug, Clone)]
pub struct InstallResult {
    /// Whether installation succeeded.
    pub success: bool,
    /// What happened, in words.
    pub message: String,
    /// What the user should do next, when something is left to do.
    pub next_action: Option<String>,
}

/// The server's status from the two probes: answering beats installed,
/// installed beats absent.
pub fn ollama_status_of(api_running: bool, binary_installed: bool) -> (r: OllamaStatus)
    ensures
        api_running ==> r == OllamaStatus::Running,
        !api_running && binary_installed ==> r == OllamaStatus::Installed,
        !api_running && !binary_installed ==> r == OllamaStatus::NotInstalled,
{
    if api_running {
        OllamaStatus::Running
    } else if binary_installed {
        OllamaStatus::Installed
    } else {
        OllamaStatus::NotInstalled
    }
}

/// What the container installation should do.
#[derive(Debug, Clone, PartialEq, Eq)]
pub enum DockerPlan {
    /// Nothing: the container already runs.
    AlreadyRunning,
    /// Start the stopped container.
    StartExisting,
    /// Remove the container and create it anew.
    Recreate,
    /// Refuse: the container exists but neither restart nor recreation
    /// was asked for.
    AlreadyExists,
    /// Create the container.
    CreateNew,
}

/// Picks the container plan from the requested action and the container's
/// status: `restart` reuses what runs or starts what is stopped,
/// `recreate` replaces what exists, anything else refuses to touch an
/// existing container; a missing container is always created.
pub fn docker_install_plan(action: &str, status: &ContainerStatus) -> (r: DockerPlan)
    ensures
        match *status {
            ContainerStatus::NotFound => r == DockerPlan::CreateNew,
            ContainerStatus::Running => r == (if action@ == "restart"@ {
                DockerPlan::AlreadyRunning
            } else if action@ == "recreate"@ {
                DockerPlan::Recreate
            } else {
                DockerPlan::AlreadyExists
            }),
            ContainerStatus::Stopped => r == (if action@ == "restart"@ {
                DockerPlan::StartExisting
            } else if action@ == "recreate"@ {
                DockerPlan::Recreate
            } else {
                DockerPlan::AlreadyExists
            }),
        },
{
    let restart = text::str_eq(action, "restart");
    let recreate = text::str_eq(action, "recreate");
    match status {
        ContainerStatus::NotFound => DockerPlan::CreateNew,
        ContainerStatus::Running => {
            if restart {
                DockerPlan::AlreadyRunning
            } else if recreate {
                DockerPlan::Recreate
            } else {
                DockerPlan::AlreadyExists
            }
        },
        ContainerStatus::Stopped => {
            if restart {
                DockerPlan::StartExisting
            } else if recreate {
                DockerPlan::Recreate
            } else {
                DockerPlan::AlreadyExists
            }
        },
    }
}

} // verus!
